//! Configuration: its parts, their defaults, and the names of its choices.
use vstd::prelude::*;

verus! {

/// The whole configuration.
#[derive(Debug)]
pub struct Config {
    pub server: ServerConfig,
    pub web: WebConfig,
    pub db: DbConfig,
    pub llm: LlmConfig,
    pub tic: TicConfig,
    pub cron: CronConfig,
    /// The IANA name of the time zone for schedules and for the date shown to
    /// the model; the system's own where omitted.
    pub timezone: Option<String>,
}

/// Settings of the scheduler.
#[derive(Debug, Default)]
pub struct CronConfig {}

#[derive(Debug)]
pub struct ServerConfig {
    pub host: String,
    pub port: u16,
}

#[derive(Debug)]
pub struct WebConfig {
    pub static_dir: String,
}

#[derive(Debug)]
pub struct DbConfig {
    pub path: String,
}

/// Settings of the model calls.
#[derive(Debug)]
pub struct LlmConfig {
    pub max_history_messages: usize,
    pub max_tool_rounds: Option<usize>,
    /// The number of characters beyond which tool results of earlier turns are
    /// replaced by a placeholder.
    pub max_tool_result_chars: Option<usize>,
    pub request_log: Option<LlmRequestLogConfig>,
    /// Automatic compaction; disabled where omitted.
    pub compaction: Option<CompactionConfig>,
    pub datetime: DatetimeConfig,
}

impl LlmConfig {
    /// The number of rounds of a turn.
    pub fn tool_rounds(&self) -> (r: usize)
        ensures
            r == match self.max_tool_rounds {
                Some(n) => n,
                None => crate::session::turn::DEFAULT_MAX_TOOL_ROUNDS,
            },
    {
        match self.max_tool_rounds {
            Some(n) => n,
            None => crate::session::turn::DEFAULT_MAX_TOOL_ROUNDS,
        }
    }
}

/// How the date and time are shown to the model.
#[derive(Debug, Clone)]
pub struct DatetimeConfig {
    pub enabled: bool,
    /// The number of minutes to round the time down to.
    pub round_minutes: Option<u32>,
    pub timezone: Option<String>,
}

impl Default for DatetimeConfig {
    fn default() -> (r: DatetimeConfig)
        ensures
            r.enabled,
            r.round_minutes is None,
            r.timezone is None,
    {
        DatetimeConfig { enabled: true, round_minutes: None, timezone: None }
    }
}

pub fn default_true() -> (r: bool)
    ensures
        r,
{
    true
}

/// When the conversation is summarised, and how much of it is kept.
#[derive(Debug, Clone)]
pub struct CompactionConfig {
    /// The number of input tokens beyond which the next turn compacts.
    pub threshold_tokens: u32,
    /// How many recent messages stay outside the summary.
    pub keep_recent: usize,
    /// The least strength of the model that writes summaries.
    pub strength: Option<LlmStrength>,
}

pub fn default_keep_recent() -> (r: usize)
    ensures
        r == 6,
{
    6
}

/// Settings of the background event processor.
#[derive(Debug, Clone)]
pub struct TicConfig {
    /// Seconds between ticks.
    pub interval_secs: u64,
    /// The most events processed per tick.
    pub batch_size: i64,
}

impl Default for TicConfig {
    fn default() -> (r: TicConfig)
        ensures
            r.interval_secs == 900,
            r.batch_size == 50,
    {
        TicConfig { interval_secs: default_tic_interval_secs(), batch_size: default_tic_batch_size() }
    }
}

pub fn default_tic_interval_secs() -> (r: u64)
    ensures
        r == 900,
{
    900
}

pub fn default_tic_batch_size() -> (r: i64)
    ensures
        r == 50,
{
    50
}

/// Settings of the log of model requests.
#[derive(Debug)]
pub struct LlmRequestLogConfig {
    pub enabled: bool,
    /// How many days rows are kept.
    pub retention_days: u32,
}

pub fn default_retention_days() -> (r: u32)
    ensures
        r == 14,
{
    14
}

/// How capable a model is.
#[derive(Debug, Clone, Copy, PartialEq, Eq, PartialOrd, Ord, Structural)]
pub enum LlmStrength {
    VeryLow,
    Low,
    Average,
    High,
    VeryHigh,
}

impl LlmStrength {
    /// The strength as a number, the weakest first.
    pub open spec fn level(self) -> int {
        match self {
            LlmStrength::VeryLow => 0,
            LlmStrength::Low => 1,
            LlmStrength::Average => 2,
            LlmStrength::High => 3,
            LlmStrength::VeryHigh => 4,
        }
    }

    pub fn rank(&self) -> (r: u8)
        ensures
            r == self.level(),
    {
        match self {
            LlmStrength::VeryLow => 0,
            LlmStrength::Low => 1,
            LlmStrength::Average => 2,
            LlmStrength::High => 3,
            LlmStrength::VeryHigh => 4,
        }
    }

    pub open spec fn name(self) -> Seq<char> {
        match self {
            LlmStrength::VeryLow => "very_low"@,
            LlmStrength::Low => "low"@,
            LlmStrength::Average => "average"@,
            LlmStrength::High => "high"@,
            LlmStrength::VeryHigh => "very_high"@,
        }
    }

    pub fn as_str(&self) -> (r: &'static str)
        ensures
            r@ == self.name(),
    {
        match self {
            LlmStrength::VeryLow => "very_low",
            LlmStrength::Low => "low",
            LlmStrength::Average => "average",
            LlmStrength::High => "high",
            LlmStrength::VeryHigh => "very_high",
        }
    }
}

/// The kind of an external API provider.
#[derive(Debug, Clone, Copy, PartialEq, Eq, Structural)]
pub enum LlmProvider {
    LmStudio,
    Ollama,
    OpenAi,
    OpenRouter,
    Anthropic,
    DeepSeek,
    /// Speech only: no chat.
    ElevenLabs,
}

impl LlmProvider {
    pub open spec fn name(self) -> Seq<char> {
        match self {
            LlmProvider::LmStudio => "lm_studio"@,
            LlmProvider::Ollama => "ollama"@,
            LlmProvider::OpenAi => "open_ai"@,
            LlmProvider::OpenRouter => "openrouter"@,
            LlmProvider::Anthropic => "anthropic"@,
            LlmProvider::DeepSeek => "deepseek"@,
            LlmProvider::ElevenLabs => "elevenlabs"@,
        }
    }

    pub fn as_str(&self) -> (r: &'static str)
        ensures
            r@ == self.name(),
    {
        match self {
            LlmProvider::LmStudio => "lm_studio",
            LlmProvider::Ollama => "ollama",
            LlmProvider::OpenAi => "open_ai",
            LlmProvider::OpenRouter => "openrouter",
            LlmProvider::Anthropic => "anthropic",
            LlmProvider::DeepSeek => "deepseek",
            LlmProvider::ElevenLabs => "elevenlabs",
        }
    }
}

/// The strengths of models, from the weakest to the strongest, rank in that
/// order, and have a name each.
pub proof fn law_strengths(s: LlmStrength, r: u8, name: &'static str)
    requires
        call_ensures(LlmStrength::rank, (&s,), r),
        call_ensures(LlmStrength::as_str, (&s,), name),
    ensures
        s is VeryLow <==> r == 0,
        s is Low <==> r == 1,
        s is Average <==> r == 2,
        s is High <==> r == 3,
        s is VeryHigh <==> r == 4,
        name@ == match s {
            LlmStrength::VeryLow => "very_low"@,
            LlmStrength::Low => "low"@,
            LlmStrength::Average => "average"@,
            LlmStrength::High => "high"@,
            LlmStrength::VeryHigh => "very_high"@,
        },
{
}

/// The providers of models by their names.
pub proof fn law_names_of_providers(p: LlmProvider, name: &'static str)
    requires
        call_ensures(LlmProvider::as_str, (&p,), name),
    ensures
        name@ == match p {
            LlmProvider::LmStudio => "lm_studio"@,
            LlmProvider::Ollama => "ollama"@,
            LlmProvider::OpenAi => "open_ai"@,
            LlmProvider::OpenRouter => "openrouter"@,
            LlmProvider::Anthropic => "anthropic"@,
            LlmProvider::DeepSeek => "deepseek"@,
            LlmProvider::ElevenLabs => "elevenlabs"@,
        },
{
}

/// A turn has as many rounds as are configured, or twenty.
pub proof fn law_rounds_of_a_turn(c: &LlmConfig, r: usize)
    requires
        call_ensures(LlmConfig::tool_rounds, (c,), r),
    ensures
        c.max_tool_rounds matches Some(n) ==> r == n,
        c.max_tool_rounds is None ==> r == 20,
{
}

/// What holds where nothing is configured.
pub proof fn law_defaults(a: bool, keep: usize, interval: u64, batch: i64, days: u32)
    requires
        call_ensures(default_true, (), a),
        call_ensures(default_keep_recent, (), keep),
        call_ensures(default_tic_interval_secs, (), interval),
        call_ensures(default_tic_batch_size, (), batch),
        call_ensures(default_retention_days, (), days),
    ensures
        a && keep == 6 && interval == 900 && batch == 50 && days == 14,
{
}

} // verus!
