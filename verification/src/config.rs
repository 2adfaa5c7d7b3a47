//! Layered configuration: defaults, global TOML, repository TOML,
//! environment, each overriding the one before.
//!
//! Reading the files is the caller's job; this module holds the values,
//! how two layers merge and how the environment applies.

use vstd::prelude::*;

use crate::env::Env;
use crate::text::{ascii_lower, ascii_lower_exec, chars_of, eq_str, push_str, trim, trim_exec};

verus! {

/// Batch size of the batched tier.
pub const DEFAULT_BATCH_SIZE: usize = 50;

/// Diff budget of the per-commit tier, in tokens.
pub const DEFAULT_MAX_DIFF_TOKENS: usize = 6000;

/// Confidence below which a commit is escalated, in thousandths.
pub const DEFAULT_CONFIDENCE_THRESHOLD: u32 = 800;

/// Directory of the user-global configuration.
pub fn config_dir() -> (r: &'static str)
    ensures
        r@ == "chronikl"@,
{
    "chronikl"
}

/// Name of the repository configuration file.
pub fn config_filename() -> (r: &'static str)
    ensures
        r@ == ".chronikl.toml"@,
{
    ".chronikl.toml"
}

#[derive(Debug, PartialEq, Eq)]
pub enum ConfigError {
    Io { path: String, message: String },
    Toml { path: String, message: String },
    InvalidValue { key: String, message: String },
}

#[derive(Debug, Clone, Default, PartialEq, Eq)]
pub struct VoiceConfig {
    /// Custom voice file; wins over `profile`.
    pub path: Option<String>,
    /// Bundled profile name.
    pub profile: Option<String>,
    /// Appended to the system prompt.
    pub extra_instructions: Option<String>,
    /// Include commit and PR bodies in the prose prompt.
    pub rich_context: bool,
}

#[derive(Debug, Clone, Default, PartialEq, Eq)]
pub struct ProviderConfig {
    pub name: Option<String>,
    pub model: Option<String>,
    pub api_key: Option<String>,
    pub base_url: Option<String>,
}

#[derive(Debug, Clone, Copy, PartialEq, Eq, Structural)]
pub struct LadderConfig {
    pub agent_fallback: bool,
    pub max_diff_tokens: usize,
    /// In thousandths.
    pub confidence_threshold: u32,
    pub batch_size: usize,
}

impl Default for LadderConfig {
    fn default() -> (r: Self)
        ensures
            r == default_ladder(),
    {
        LadderConfig {
            agent_fallback: false,
            max_diff_tokens: DEFAULT_MAX_DIFF_TOKENS,
            confidence_threshold: DEFAULT_CONFIDENCE_THRESHOLD,
            batch_size: DEFAULT_BATCH_SIZE,
        }
    }
}

pub open spec fn default_ladder() -> LadderConfig {
    LadderConfig {
        agent_fallback: false,
        max_diff_tokens: DEFAULT_MAX_DIFF_TOKENS,
        confidence_threshold: DEFAULT_CONFIDENCE_THRESHOLD,
        batch_size: DEFAULT_BATCH_SIZE,
    }
}

#[derive(Debug, Clone, Copy, Default, PartialEq, Eq, Structural)]
pub enum OutputFormat {
    #[default]
    Markdown,
    Json,
}

#[derive(Debug, Clone, Default, PartialEq, Eq)]
pub struct OutputConfig {
    pub format: OutputFormat,
    pub path: Option<String>,
}

#[derive(Debug, Clone, PartialEq, Eq)]
pub struct TelemetryConfig {
    pub enabled: bool,
}

impl Default for TelemetryConfig {
    fn default() -> (r: Self)
        ensures
            r.enabled,
    {
        TelemetryConfig { enabled: true }
    }
}

#[derive(Debug, Clone, Default, PartialEq, Eq)]
pub struct LicenseConfig {
    pub key: Option<String>,
}

#[derive(Debug, Clone, PartialEq, Eq)]
pub struct Config {
    pub voice: VoiceConfig,
    pub provider: ProviderConfig,
    pub ladder: LadderConfig,
    pub output: OutputConfig,
    pub telemetry: TelemetryConfig,
    pub license: LicenseConfig,
}

impl Default for Config {
    fn default() -> (r: Self)
        ensures
            r == default_config(),
    {
        Config {
            voice: VoiceConfig { path: None, profile: None, extra_instructions: None, rich_context: false },
            provider: ProviderConfig { name: None, model: None, api_key: None, base_url: None },
            ladder: LadderConfig::default(),
            output: OutputConfig { format: OutputFormat::Markdown, path: None },
            telemetry: TelemetryConfig { enabled: true },
            license: LicenseConfig { key: None },
        }
    }
}

pub open spec fn default_config() -> Config {
    Config {
        voice: VoiceConfig { path: None, profile: None, extra_instructions: None, rich_context: false },
        provider: ProviderConfig { name: None, model: None, api_key: None, base_url: None },
        ladder: default_ladder(),
        output: OutputConfig { format: OutputFormat::Markdown, path: None },
        telemetry: TelemetryConfig { enabled: true },
        license: LicenseConfig { key: None },
    }
}

/// The settings one configuration file makes: each is `None` where the
/// file leaves it unset.
#[derive(Debug, Clone, Default, PartialEq, Eq)]
pub struct VoiceLayer {
    pub path: Option<String>,
    pub profile: Option<String>,
    pub extra_instructions: Option<String>,
    pub rich_context: Option<bool>,
}

#[derive(Debug, Clone, Copy, Default, PartialEq, Eq)]
pub struct LadderLayer {
    pub agent_fallback: Option<bool>,
    pub max_diff_tokens: Option<usize>,
    /// In thousandths.
    pub confidence_threshold: Option<u32>,
    pub batch_size: Option<usize>,
}

#[derive(Debug, Clone, Default, PartialEq, Eq)]
pub struct OutputLayer {
    pub format: Option<OutputFormat>,
    pub path: Option<String>,
}

/// One configuration layer (a TOML file): what it sets, field by field.
#[derive(Debug, Clone, Default, PartialEq, Eq)]
pub struct ConfigLayer {
    pub voice: VoiceLayer,
    pub provider: ProviderConfig,
    pub ladder: LadderLayer,
    pub output: OutputLayer,
    pub telemetry_enabled: Option<bool>,
    pub license: LicenseConfig,
}

/// The layer that sets nothing.
pub open spec fn empty_layer() -> ConfigLayer {
    ConfigLayer {
        voice: VoiceLayer { path: None, profile: None, extra_instructions: None, rich_context: None },
        provider: ProviderConfig { name: None, model: None, api_key: None, base_url: None },
        ladder: LadderLayer { agent_fallback: None, max_diff_tokens: None, confidence_threshold: None, batch_size: None },
        output: OutputLayer { format: None, path: None },
        telemetry_enabled: None,
        license: LicenseConfig { key: None },
    }
}

/// The layer that sets every field to its value in `c` (the optional
/// fields of `c` that are `None` stay unset).
pub open spec fn full_layer(c: Config) -> ConfigLayer {
    ConfigLayer {
        voice: VoiceLayer {
            path: c.voice.path,
            profile: c.voice.profile,
            extra_instructions: c.voice.extra_instructions,
            rich_context: Some(c.voice.rich_context),
        },
        provider: c.provider,
        ladder: LadderLayer {
            agent_fallback: Some(c.ladder.agent_fallback),
            max_diff_tokens: Some(c.ladder.max_diff_tokens),
            confidence_threshold: Some(c.ladder.confidence_threshold),
            batch_size: Some(c.ladder.batch_size),
        },
        output: OutputLayer { format: Some(c.output.format), path: c.output.path },
        telemetry_enabled: Some(c.telemetry.enabled),
        license: c.license,
    }
}

/// `next` if present, else `base`.
pub open spec fn or_else<T>(next: Option<T>, base: Option<T>) -> Option<T> {
    if next is Some {
        next
    } else {
        base
    }
}

/// The value `next` sets, else `base`.
pub open spec fn or_value<T>(next: Option<T>, base: T) -> T {
    match next {
        Some(v) => v,
        None => base,
    }
}

/// The layering of `next` over `base`: every setting that `next` makes
/// wins; every other one keeps its value in `base`.
pub open spec fn merged(base: Config, next: ConfigLayer) -> Config {
    Config {
        voice: VoiceConfig {
            path: or_else(next.voice.path, base.voice.path),
            profile: or_else(next.voice.profile, base.voice.profile),
            extra_instructions: or_else(next.voice.extra_instructions, base.voice.extra_instructions),
            rich_context: or_value(next.voice.rich_context, base.voice.rich_context),
        },
        provider: ProviderConfig {
            name: or_else(next.provider.name, base.provider.name),
            model: or_else(next.provider.model, base.provider.model),
            api_key: or_else(next.provider.api_key, base.provider.api_key),
            base_url: or_else(next.provider.base_url, base.provider.base_url),
        },
        ladder: LadderConfig {
            agent_fallback: or_value(next.ladder.agent_fallback, base.ladder.agent_fallback),
            max_diff_tokens: or_value(next.ladder.max_diff_tokens, base.ladder.max_diff_tokens),
            confidence_threshold: or_value(next.ladder.confidence_threshold, base.ladder.confidence_threshold),
            batch_size: or_value(next.ladder.batch_size, base.ladder.batch_size),
        },
        output: OutputConfig {
            format: or_value(next.output.format, base.output.format),
            path: or_else(next.output.path, base.output.path),
        },
        telemetry: TelemetryConfig { enabled: or_value(next.telemetry_enabled, base.telemetry.enabled) },
        license: LicenseConfig { key: or_else(next.license.key, base.license.key) },
    }
}

fn pick(next: Option<String>, base: Option<String>) -> (r: Option<String>)
    ensures
        r == or_else(next, base),
{
    if next.is_some() {
        next
    } else {
        base
    }
}

fn pick_flag(next: Option<bool>, base: bool) -> (r: bool)
    ensures
        r == or_value(next, base),
{
    match next {
        Some(v) => v,
        None => base,
    }
}

fn pick_size(next: Option<usize>, base: usize) -> (r: usize)
    ensures
        r == or_value(next, base),
{
    match next {
        Some(v) => v,
        None => base,
    }
}

/// Layer `next` over `base`.
pub fn merge(base: Config, next: ConfigLayer) -> (r: Config)
    ensures
        r == merged(base, next),
{
    Config {
        voice: VoiceConfig {
            path: pick(next.voice.path, base.voice.path),
            profile: pick(next.voice.profile, base.voice.profile),
            extra_instructions: pick(next.voice.extra_instructions, base.voice.extra_instructions),
            rich_context: pick_flag(next.voice.rich_context, base.voice.rich_context),
        },
        provider: ProviderConfig {
            name: pick(next.provider.name, base.provider.name),
            model: pick(next.provider.model, base.provider.model),
            api_key: pick(next.provider.api_key, base.provider.api_key),
            base_url: pick(next.provider.base_url, base.provider.base_url),
        },
        ladder: LadderConfig {
            agent_fallback: pick_flag(next.ladder.agent_fallback, base.ladder.agent_fallback),
            max_diff_tokens: pick_size(next.ladder.max_diff_tokens, base.ladder.max_diff_tokens),
            confidence_threshold: match next.ladder.confidence_threshold {
                Some(v) => v,
                None => base.ladder.confidence_threshold,
            },
            batch_size: pick_size(next.ladder.batch_size, base.ladder.batch_size),
        },
        output: OutputConfig {
            format: match next.output.format {
                Some(f) => f,
                None => base.output.format,
            },
            path: pick(next.output.path, base.output.path),
        },
        telemetry: TelemetryConfig { enabled: pick_flag(next.telemetry_enabled, base.telemetry.enabled) },
        license: LicenseConfig { key: pick(next.license.key, base.license.key) },
    }
}

/// A layer that sets nothing changes nothing; a layer that sets every
/// field to the values of `c` gives `c` over any base whose unset
/// optional fields agree with `c`'s, in particular over `c` itself.
pub proof fn lemma_merge_identities(base: Config, c: Config)
    ensures
        merged(c, empty_layer()) == c,
        merged(c, full_layer(c)) == c,
        merged(base, full_layer(c)).ladder == c.ladder,
        merged(base, full_layer(c)).voice.rich_context == c.voice.rich_context,
        merged(base, full_layer(c)).telemetry == c.telemetry,
        merged(base, full_layer(c)).output.format == c.output.format,
{
}

/// Precedence: a setting the upper layer makes wins over the lower
/// layer, whatever the lower layer says; a setting it leaves unset keeps
/// the lower layer's value. Shown for each boolean setting.
pub proof fn lemma_upper_layer_wins(base: Config, next: ConfigLayer)
    ensures
        next.telemetry_enabled matches Some(b) ==> merged(base, next).telemetry.enabled == b,
        next.telemetry_enabled is None ==> merged(base, next).telemetry.enabled == base.telemetry.enabled,
        next.voice.rich_context matches Some(b) ==> merged(base, next).voice.rich_context == b,
        next.voice.rich_context is None ==> merged(base, next).voice.rich_context == base.voice.rich_context,
        next.ladder.agent_fallback matches Some(b) ==> merged(base, next).ladder.agent_fallback == b,
        next.ladder.agent_fallback is None ==> merged(base, next).ladder.agent_fallback
            == base.ladder.agent_fallback,
{
}

/// A boolean setting: `1`/`true`/`yes`/`on` or `0`/`false`/`no`/`off`,
/// surrounding whitespace and ASCII case ignored.
pub open spec fn bool_setting(s: Seq<char>) -> Option<bool> {
    let t = ascii_lower(trim(s));
    if t == "1"@ || t == "true"@ || t == "yes"@ || t == "on"@ {
        Some(true)
    } else if t == "0"@ || t == "false"@ || t == "no"@ || t == "off"@ {
        Some(false)
    } else {
        None
    }
}

/// Parse a boolean setting; the error names the rejected (trimmed,
/// lowercased) text.
pub fn parse_bool(s: &str) -> (r: Result<bool, String>)
    ensures
        match r {
            Ok(b) => bool_setting(s@) == Some(b),
            Err(m) => bool_setting(s@) is None && m@ == "expected boolean (true/false/1/0), got `"@
                + ascii_lower(trim(s@)) + "`"@,
        },
{
    let t = ascii_lower_exec(&trim_exec(&chars_of(s)));
    if eq_str(&t, "1") || eq_str(&t, "true") || eq_str(&t, "yes") || eq_str(&t, "on") {
        Ok(true)
    } else if eq_str(&t, "0") || eq_str(&t, "false") || eq_str(&t, "no") || eq_str(&t, "off") {
        Ok(false)
    } else {
        let mut m = String::from_str("expected boolean (true/false/1/0), got `");
        crate::text::push_chars(&mut m, &t);
        push_str(&mut m, "`");
        Err(m)
    }
}

/// Conventional API-key variables of a provider, by lowercased name.
pub open spec fn provider_key_vars(p: Seq<char>) -> Seq<Seq<char>> {
    let n = ascii_lower(p);
    if n == "anthropic"@ {
        seq!["ANTHROPIC_API_KEY"@]
    } else if n == "openai"@ {
        seq!["OPENAI_API_KEY"@]
    } else if n == "azure"@ {
        seq!["AZURE_OPENAI_API_KEY"@, "AZURE_API_KEY"@]
    } else if n == "gemini"@ {
        seq!["GEMINI_API_KEY"@, "GOOGLE_API_KEY"@]
    } else if n == "groq"@ {
        seq!["GROQ_API_KEY"@]
    } else if n == "mistral"@ {
        seq!["MISTRAL_API_KEY"@]
    } else if n == "deepseek"@ {
        seq!["DEEPSEEK_API_KEY"@]
    } else if n == "xai"@ {
        seq!["XAI_API_KEY"@]
    } else if n == "cohere"@ {
        seq!["COHERE_API_KEY"@]
    } else if n == "openrouter"@ {
        seq!["OPENROUTER_API_KEY"@]
    } else if n == "perplexity"@ {
        seq!["PERPLEXITY_API_KEY"@]
    } else if n == "together"@ {
        seq!["TOGETHER_API_KEY"@]
    } else if n == "moonshot"@ {
        seq!["MOONSHOT_API_KEY"@]
    } else if n == "huggingface"@ {
        seq!["HF_API_KEY"@, "HUGGINGFACE_API_KEY"@]
    } else {
        seq![]
    }
}

/// Value of the first of `names` that is set.
pub open spec fn first_defined(env: Env, names: Seq<Seq<char>>) -> Option<Seq<char>>
    decreases names.len(),
{
    if names.len() == 0 {
        None
    } else if env.lookup(names[0]) is Some {
        env.lookup(names[0])
    } else {
        first_defined(env, names.drop_first())
    }
}

fn key_vars(provider: &str) -> (r: Vec<&'static str>)
    ensures
        r@.map_values(|n: &'static str| n@) == provider_key_vars(provider@),
{
    let n = ascii_lower_exec(&chars_of(provider));
    let r: Vec<&'static str> = if eq_str(&n, "anthropic") {
        vec!["ANTHROPIC_API_KEY"]
    } else if eq_str(&n, "openai") {
        vec!["OPENAI_API_KEY"]
    } else if eq_str(&n, "azure") {
        vec!["AZURE_OPENAI_API_KEY", "AZURE_API_KEY"]
    } else if eq_str(&n, "gemini") {
        vec!["GEMINI_API_KEY", "GOOGLE_API_KEY"]
    } else if eq_str(&n, "groq") {
        vec!["GROQ_API_KEY"]
    } else if eq_str(&n, "mistral") {
        vec!["MISTRAL_API_KEY"]
    } else if eq_str(&n, "deepseek") {
        vec!["DEEPSEEK_API_KEY"]
    } else if eq_str(&n, "xai") {
        vec!["XAI_API_KEY"]
    } else if eq_str(&n, "cohere") {
        vec!["COHERE_API_KEY"]
    } else if eq_str(&n, "openrouter") {
        vec!["OPENROUTER_API_KEY"]
    } else if eq_str(&n, "perplexity") {
        vec!["PERPLEXITY_API_KEY"]
    } else if eq_str(&n, "together") {
        vec!["TOGETHER_API_KEY"]
    } else if eq_str(&n, "moonshot") {
        vec!["MOONSHOT_API_KEY"]
    } else if eq_str(&n, "huggingface") {
        vec!["HF_API_KEY", "HUGGINGFACE_API_KEY"]
    } else {
        vec![]
    };
    proof {
        assert(r@.map_values(|n: &'static str| n@) =~= provider_key_vars(provider@));
    }
    r
}

/// API key from the provider's conventional variables.
pub fn lookup_provider_key(env: &Env, provider: &str) -> (r: Option<String>)
    ensures
        match r {
            Some(k) => first_defined(*env, provider_key_vars(provider@)) == Some(k@),
            None => first_defined(*env, provider_key_vars(provider@)) is None,
        },
{
    let names = key_vars(provider);
    let ghost all = provider_key_vars(provider@);
    let mut i: usize = 0;
    proof {
        assert(all.skip(0) =~= all);
    }
    while i < names.len()
        invariant
            i <= names@.len(),
            all == names@.map_values(|n: &'static str| n@),
            all == provider_key_vars(provider@),
            first_defined(*env, all) == first_defined(*env, all.skip(i as int)),
        decreases names@.len() - i,
    {
        proof {
            assert(all.skip(i as int).len() > 0);
            assert(all.skip(i as int)[0] == names@[i as int]@);
            assert(all.skip(i as int).drop_first() =~= all.skip(i + 1));
        }
        match env.var(names[i]) {
            Some(v) => {
                return Some(v);
            },
            None => {},
        }
        i = i + 1;
    }
    None
}

/// `Some(v)` when the variable is set.
pub open spec fn env_opt(env: Env, name: Seq<char>) -> Option<Seq<char>> {
    env.lookup(name)
}

pub open spec fn opt_view(o: Option<String>) -> Option<Seq<char>> {
    crate::models::release::opt_view(o)
}

/// The configuration after the environment applies to `c`, or the
/// error it raises.
pub open spec fn env_applied(c: Config, env: Env, r: Result<Config, ConfigError>) -> bool {
    let name = or_else(env.lookup("CHRONIKL_PROVIDER"@), opt_view(c.provider.name));
    let key = if env.lookup("CHRONIKL_API_KEY"@) is Some {
        env.lookup("CHRONIKL_API_KEY"@)
    } else {
        match name {
            Some(n) => or_else(first_defined(env, provider_key_vars(n)), opt_view(c.provider.api_key)),
            None => opt_view(c.provider.api_key),
        }
    };
    let bad_telemetry = match env.lookup("CHRONIKL_TELEMETRY"@) {
        Some(t) => bool_setting(t) is None,
        None => false,
    };
    if bad_telemetry {
        r matches Err(ConfigError::InvalidValue { key, message }) && key@ == "CHRONIKL_TELEMETRY"@
    } else {
        r matches Ok(n) && {
            &&& n.voice == c.voice
            &&& n.ladder == c.ladder
            &&& n.output == c.output
            &&& opt_view(n.provider.name) == name
            &&& opt_view(n.provider.model) == or_else(env.lookup("CHRONIKL_MODEL"@), opt_view(c.provider.model))
            &&& opt_view(n.provider.base_url) == or_else(env.lookup("CHRONIKL_BASE_URL"@), opt_view(c.provider.base_url))
            &&& opt_view(n.provider.api_key) == key
            &&& opt_view(n.license.key) == or_else(env.lookup("CHRONIKL_LICENSE_KEY"@), opt_view(c.license.key))
            &&& n.telemetry.enabled == match env.lookup("CHRONIKL_TELEMETRY"@) {
                Some(t) => bool_setting(t) == Some(true),
                None => c.telemetry.enabled,
            }
        }
    }
}

fn env_or(env: &Env, name: &str, base: Option<String>) -> (r: Option<String>)
    ensures
        opt_view(r) == or_else(env.lookup(name@), opt_view(base)),
{
    match env.var(name) {
        Some(v) => Some(v),
        None => base,
    }
}

/// Apply the `CHRONIKL_*` variables (and, for the API key, the provider's
/// own variables) over `c`.
pub fn apply_env(c: Config, env: &Env) -> (r: Result<Config, ConfigError>)
    ensures
        env_applied(c, *env, r),
{
    let mut c = c;
    let ghost c0 = c;
    c.provider.name = env_or(env, "CHRONIKL_PROVIDER", c.provider.name);
    c.provider.model = env_or(env, "CHRONIKL_MODEL", c.provider.model);
    c.provider.base_url = env_or(env, "CHRONIKL_BASE_URL", c.provider.base_url);
    match env.var("CHRONIKL_API_KEY") {
        Some(v) => {
            c.provider.api_key = Some(v);
        },
        None => match &c.provider.name {
            Some(n) => {
                match lookup_provider_key(env, n.as_str()) {
                    Some(k) => {
                        c.provider.api_key = Some(k);
                    },
                    None => {},
                }
            },
            None => {},
        },
    }
    c.license.key = env_or(env, "CHRONIKL_LICENSE_KEY", c.license.key);
    match env.var("CHRONIKL_TELEMETRY") {
        Some(v) => match parse_bool(v.as_str()) {
            Ok(b) => {
                c.telemetry.enabled = b;
            },
            Err(m) => {
                return Err(ConfigError::InvalidValue { key: String::from_str("CHRONIKL_TELEMETRY"), message: m });
            },
        },
        None => {},
    }
    Ok(c)
}

/// The defaults with the global layer, then the repository layer, merged
/// over them (an absent layer is skipped).
pub open spec fn layered(global: Option<ConfigLayer>, repo: Option<ConfigLayer>) -> Config {
    let g = match global {
        Some(c) => merged(default_config(), c),
        None => default_config(),
    };
    match repo {
        Some(c) => merged(g, c),
        None => g,
    }
}

/// The repository file takes precedence over the global file: a setting
/// the repository file makes is the one loaded (before the environment),
/// and a setting it leaves unset comes from the global file.
pub proof fn lemma_repo_over_global(g: ConfigLayer, r: ConfigLayer)
    ensures
        layered(Some(g), Some(r)) == merged(merged(default_config(), g), r),
        r.telemetry_enabled matches Some(b) ==> layered(Some(g), Some(r)).telemetry.enabled == b,
        r.telemetry_enabled is None ==> layered(Some(g), Some(r)).telemetry.enabled == or_value(
            g.telemetry_enabled,
            true,
        ),
        r.voice.rich_context matches Some(b) ==> layered(Some(g), Some(r)).voice.rich_context == b,
        r.provider.name is Some ==> layered(Some(g), Some(r)).provider.name == r.provider.name,
        r.provider.name is None ==> layered(Some(g), Some(r)).provider.name == g.provider.name,
{
}

impl Config {
    /// The configuration of a run: defaults, then the global file's
    /// layer, then the repository file's layer, then the environment.
    /// The files are read and parsed by the caller.
    pub fn load(env: &Env, global: Option<ConfigLayer>, repo: Option<ConfigLayer>) -> (r: Result<Config, ConfigError>)
        ensures
            env_applied(layered(global, repo), *env, r),
    {
        let mut config = Config::default();
        match global {
            Some(c) => {
                config = merge(config, c);
            },
            None => {},
        }
        match repo {
            Some(c) => {
                config = merge(config, c);
            },
            None => {},
        }
        apply_env(config, env)
    }
}

} // verus!
