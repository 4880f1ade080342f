//! How the parts are set up at the start.
use vstd::prelude::*;

use crate::config::{DatetimeConfig, LlmProvider};
use crate::paths::{components, join_text, path_join, path_text, render_parts, split_path};
use crate::session::prompt::{known_zone, zone_name};
use crate::text::{copy_opt, opt_text, str_eq, texts};
use crate::tools::file_write_tools;

verus! {

/// Settings of the log of model requests: what is stored, and after how many
/// days what is taken out again.
#[derive(Debug)]
pub struct RequestsLogConfig {
    pub enabled: bool,
    pub request_payload_save: bool,
    pub response_payload_save: bool,
    pub request_header_save: bool,
    pub response_header_save: bool,
    pub cleanup_request_payload_after: Option<u32>,
    pub cleanup_response_payload_after: Option<u32>,
    pub cleanup_headers_after: Option<u32>,
    pub cleanup_rows_after: Option<u32>,
}

/// What the log stores of a request.
#[derive(Debug, Clone, Copy, PartialEq, Eq, Structural)]
pub struct LogSaveFlags {
    pub request_payload: bool,
    pub response_payload: bool,
    pub request_headers: bool,
    pub response_headers: bool,
}

/// What the log stores; nothing is logged where it is not enabled.
pub fn log_flags(cfg: &Option<RequestsLogConfig>) -> (r: Option<LogSaveFlags>)
    ensures
        match *cfg {
            Some(c) => r == if c.enabled {
                Some(
                    LogSaveFlags {
                        request_payload: c.request_payload_save,
                        response_payload: c.response_payload_save,
                        request_headers: c.request_header_save,
                        response_headers: c.response_header_save,
                    },
                )
            } else {
                None
            },
            None => r is None,
        },
{
    match cfg {
        Some(c) => if c.enabled {
            Some(
                LogSaveFlags {
                    request_payload: c.request_payload_save,
                    response_payload: c.response_payload_save,
                    request_headers: c.request_header_save,
                    response_headers: c.response_header_save,
                },
            )
        } else {
            None
        },
        None => None,
    }
}

/// Seconds between the start and the first cleanup of the log.
pub const FIRST_CLEANUP_SECS: u64 = 60;

/// Seconds between two cleanups of the log.
pub const CLEANUP_INTERVAL_SECS: u64 = 43_200;

/// Seconds that background tasks get to finish.
pub const SHUTDOWN_SECS: u64 = 10;

/// A step of the cleanup of the log, with the age in days from which rows are
/// affected.
#[derive(Debug, Clone, Copy, PartialEq, Eq, Structural)]
pub enum CleanupStep {
    RequestPayload(u32),
    ResponsePayload(u32),
    Headers(u32),
    Rows(u32),
    /// Gives the freed pages back.
    Vacuum,
}

/// The step of an age, where there is one.
pub open spec fn step_for(step: CleanupStep, age: Option<u32>) -> Seq<CleanupStep> {
    if age is Some {
        seq![step]
    } else {
        Seq::empty()
    }
}

/// The steps of a cleanup, in order; none where the log is not enabled.
pub open spec fn cleanup_of(cfg: Option<RequestsLogConfig>) -> Seq<CleanupStep> {
    match cfg {
        Some(c) => if c.enabled {
            step_for(
                CleanupStep::RequestPayload(c.cleanup_request_payload_after.unwrap_or(0)),
                c.cleanup_request_payload_after,
            ) + step_for(
                CleanupStep::ResponsePayload(c.cleanup_response_payload_after.unwrap_or(0)),
                c.cleanup_response_payload_after,
            ) + step_for(
                CleanupStep::Headers(c.cleanup_headers_after.unwrap_or(0)),
                c.cleanup_headers_after,
            ) + step_for(
                CleanupStep::Rows(c.cleanup_rows_after.unwrap_or(0)),
                c.cleanup_rows_after,
            ) + seq![CleanupStep::Vacuum]
        } else {
            Seq::empty()
        },
        None => Seq::empty(),
    }
}

/// The steps of a cleanup of the log, in order.
pub fn cleanup_steps(cfg: &Option<RequestsLogConfig>) -> (r: Vec<CleanupStep>)
    ensures
        r@ == cleanup_of(*cfg),
{
    let mut steps: Vec<CleanupStep> = Vec::new();
    match cfg {
        Some(c) => if c.enabled {
            if let Some(days) = c.cleanup_request_payload_after {
                steps.push(CleanupStep::RequestPayload(days));
            }
            if let Some(days) = c.cleanup_response_payload_after {
                steps.push(CleanupStep::ResponsePayload(days));
            }
            if let Some(days) = c.cleanup_headers_after {
                steps.push(CleanupStep::Headers(days));
            }
            if let Some(days) = c.cleanup_rows_after {
                steps.push(CleanupStep::Rows(days));
            }
            steps.push(CleanupStep::Vacuum);
        },
        None => {},
    }
    assert(steps@ =~= cleanup_of(*cfg));
    steps
}

/// The time zone for schedules: the configured one where it is known, else
/// that of the system.
pub fn schedule_zone(timezone: &Option<String>) -> (r: Option<String>)
    ensures
        opt_text(r) == known_zone(opt_text(*timezone)),
{
    match timezone {
        Some(t) => zone_name(t.as_str()),
        None => None,
    }
}

/// How the date and time are shown, in the configured time zone.
pub fn datetime_config(timezone: &Option<String>, datetime: &DatetimeConfig) -> (r: DatetimeConfig)
    ensures
        r.enabled == datetime.enabled,
        r.round_minutes == datetime.round_minutes,
        opt_text(r.timezone) == opt_text(*timezone),
{
    DatetimeConfig {
        enabled: datetime.enabled,
        round_minutes: datetime.round_minutes,
        timezone: copy_opt(timezone),
    }
}

/// The names of the tools that are always registered, in order.
pub open spec fn builtin_tool_names() -> Seq<Seq<char>> {
    seq![
        "edit_file"@,
        "grep_files"@,
        "insert_at_line"@,
        "list_files"@,
        "read_file"@,
        "replace_lines"@,
        "write_file"@,
        "get_ast_outline"@,
        "execute_cmd"@,
        "read_notification"@,
        "restart"@,
        "list_items"@,
        "toggle_item"@,
        "register_mcp"@,
        "delete_cron_job"@,
        "set_secret"@,
        "list_secrets"@,
        "configure_plugin"@,
    ]
}

/// The names of the tools that are always registered, in order.
pub fn builtin_tools() -> (r: Vec<String>)
    ensures
        texts(r@) == builtin_tool_names(),
{
    let v: Vec<String> = vec![
        "edit_file".to_owned(),
        "grep_files".to_owned(),
        "insert_at_line".to_owned(),
        "list_files".to_owned(),
        "read_file".to_owned(),
        "replace_lines".to_owned(),
        "write_file".to_owned(),
        "get_ast_outline".to_owned(),
        "execute_cmd".to_owned(),
        "read_notification".to_owned(),
        "restart".to_owned(),
        "list_items".to_owned(),
        "toggle_item".to_owned(),
        "register_mcp".to_owned(),
        "delete_cron_job".to_owned(),
        "set_secret".to_owned(),
        "list_secrets".to_owned(),
        "configure_plugin".to_owned(),
    ];
    assert(texts(v@) =~= builtin_tool_names());
    v
}

/// The provider types that are always known, in order.
pub open spec fn builtin_provider_types() -> Seq<LlmProvider> {
    seq![
        LlmProvider::OpenAi,
        LlmProvider::Anthropic,
        LlmProvider::OpenRouter,
        LlmProvider::Ollama,
        LlmProvider::LmStudio,
        LlmProvider::DeepSeek,
    ]
}

/// The provider types that are always known, in order.
pub fn builtin_providers() -> (r: Vec<LlmProvider>)
    ensures
        r@ == builtin_provider_types(),
{
    vec![
        LlmProvider::OpenAi,
        LlmProvider::Anthropic,
        LlmProvider::OpenRouter,
        LlmProvider::Ollama,
        LlmProvider::LmStudio,
        LlmProvider::DeepSeek,
    ]
}

/// Every provider type but the one for speech alone is always known.
pub proof fn law_builtin_providers(p: LlmProvider)
    ensures
        builtin_provider_types().contains(p) <==> p != LlmProvider::ElevenLabs,
{
    let all = builtin_provider_types();
    assert(all[0] == LlmProvider::OpenAi && all[1] == LlmProvider::Anthropic && all[2]
        == LlmProvider::OpenRouter && all[3] == LlmProvider::Ollama && all[4]
        == LlmProvider::LmStudio && all[5] == LlmProvider::DeepSeek);
}

/// The interactive sources that exist from the start.
pub fn initial_sources() -> (r: Vec<String>)
    ensures
        texts(r@) == seq!["web"@, "talk"@],
{
    let v: Vec<String> = vec!["web".to_owned(), "talk".to_owned()];
    assert(texts(v@) =~= seq!["web"@, "talk"@]);
    v
}

/// The directory above a path, as its components; none above the root or
/// nothing.
pub open spec fn parent_of(p: Seq<char>) -> Option<Seq<Seq<char>>> {
    let parts = components(p);
    if parts.len() == 0 || parts.last() == "/"@ {
        None
    } else {
        Some(parts.drop_last())
    }
}

/// The directory that is served as data: `data` beside the static files.
pub open spec fn data_path(static_dir: Seq<char>) -> Seq<char> {
    match parent_of(static_dir) {
        Some(parts) => join_text(path_text(parts), "data"@),
        None => join_text("."@, "data"@),
    }
}

/// The directory that is served as data.
pub fn data_dir(static_dir: &str) -> (r: String)
    ensures
        r@ == data_path(static_dir@),
{
    let parts: Vec<String> = split_path(static_dir);
    let n: usize = parts.len();
    assert(texts(parts@).len() == n);
    if n == 0 {
        return path_join(".", "data");
    }
    assert(texts(parts@).last() == parts@[n - 1]@);
    if str_eq(parts[n - 1].as_str(), "/") {
        return path_join(".", "data");
    }
    assert(texts(parts@).subrange(0, n - 1) =~= texts(parts@).drop_last());
    let parent: String = render_parts(&parts, 0, n - 1);
    path_join(parent.as_str(), "data")
}

/// The path below which the routes of a plugin lie.
pub fn plugin_route(id: &str) -> (r: String)
    ensures
        r@ == "/api/plugin/"@ + id@,
{
    let mut t: String = "/api/plugin/".to_owned();
    t.append(id);
    t
}

/// Every tool that writes files is registered, and the tool that creates tasks
/// is not: it comes with each interactive session.
pub proof fn law_builtin_tools()
    ensures
        forall|n: Seq<char>| #[trigger]
            file_write_tools().contains(n) ==> builtin_tool_names().contains(n),
        !builtin_tool_names().contains("execute_task"@),
{
    let all = builtin_tool_names();
    assert(all[6] == "write_file"@ && all[0] == "edit_file"@ && all[2] == "insert_at_line"@
        && all[5] == "replace_lines"@);
    reveal_strlit("execute_task");
    reveal_strlit("edit_file");
    reveal_strlit("grep_files");
    reveal_strlit("insert_at_line");
    reveal_strlit("list_files");
    reveal_strlit("read_file");
    reveal_strlit("replace_lines");
    reveal_strlit("write_file");
    reveal_strlit("get_ast_outline");
    reveal_strlit("execute_cmd");
    reveal_strlit("read_notification");
    reveal_strlit("restart");
    reveal_strlit("list_items");
    reveal_strlit("toggle_item");
    reveal_strlit("register_mcp");
    reveal_strlit("delete_cron_job");
    reveal_strlit("set_secret");
    reveal_strlit("list_secrets");
    reveal_strlit("configure_plugin");
    let t = "execute_task"@;
    assert(t.len() == 12 && t[0] == 'e');
    assert forall|i: int| 0 <= i < all.len() implies #[trigger] all[i] != t by {
        assert(all[i].len() != 12 || all[i][0] != 'e');
    }
}

/// What is kept of a request: nothing unless the log is on, else what each
/// setting says.
pub proof fn law_log_flags(cfg: &Option<RequestsLogConfig>, r: Option<LogSaveFlags>)
    requires
        call_ensures(log_flags, (cfg,), r),
    ensures
        r is Some <==> cfg is Some && cfg->Some_0.enabled,
        r matches Some(f) ==> f.request_payload == cfg->Some_0.request_payload_save
            && f.response_payload == cfg->Some_0.response_payload_save && f.request_headers
            == cfg->Some_0.request_header_save && f.response_headers
            == cfg->Some_0.response_header_save,
{
}

/// A clean-up removes each part whose age is limited, and no other, and then
/// reclaims the space; where the log is off it does nothing.
pub proof fn law_clean_ups(cfg: &Option<RequestsLogConfig>, r: Vec<CleanupStep>, days: u32)
    requires
        call_ensures(cleanup_steps, (cfg,), r),
    ensures
        cfg is None || !cfg->Some_0.enabled ==> r@.len() == 0,
        cfg matches Some(c) ==> (c.enabled ==> {
            &&& r@.len() > 0 && r@.last() is Vacuum
            &&& r@.contains(CleanupStep::RequestPayload(days))
                <==> c.cleanup_request_payload_after == Some(days)
            &&& r@.contains(CleanupStep::ResponsePayload(days))
                <==> c.cleanup_response_payload_after == Some(days)
            &&& r@.contains(CleanupStep::Headers(days)) <==> c.cleanup_headers_after == Some(days)
            &&& r@.contains(CleanupStep::Rows(days)) <==> c.cleanup_rows_after == Some(days)
        }),
{
    if cfg is Some && cfg->Some_0.enabled {
        let c = cfg->Some_0;
        let p = step_for(
            CleanupStep::RequestPayload(c.cleanup_request_payload_after.unwrap_or(0)),
            c.cleanup_request_payload_after,
        );
        let q = step_for(
            CleanupStep::ResponsePayload(c.cleanup_response_payload_after.unwrap_or(0)),
            c.cleanup_response_payload_after,
        );
        let h = step_for(
            CleanupStep::Headers(c.cleanup_headers_after.unwrap_or(0)),
            c.cleanup_headers_after,
        );
        let w = step_for(
            CleanupStep::Rows(c.cleanup_rows_after.unwrap_or(0)),
            c.cleanup_rows_after,
        );
        let v = seq![CleanupStep::Vacuum];
        assert(r@ == p + q + h + w + v);
        lemma_step_among(p, q, h, w, v, CleanupStep::RequestPayload(days));
        lemma_step_among(p, q, h, w, v, CleanupStep::ResponsePayload(days));
        lemma_step_among(p, q, h, w, v, CleanupStep::Headers(days));
        lemma_step_among(p, q, h, w, v, CleanupStep::Rows(days));
        lemma_only_step(p, CleanupStep::RequestPayload(days));
        lemma_only_step(q, CleanupStep::RequestPayload(days));
        lemma_only_step(h, CleanupStep::RequestPayload(days));
        lemma_only_step(w, CleanupStep::RequestPayload(days));
        lemma_only_step(v, CleanupStep::RequestPayload(days));
        lemma_only_step(p, CleanupStep::ResponsePayload(days));
        lemma_only_step(q, CleanupStep::ResponsePayload(days));
        lemma_only_step(h, CleanupStep::ResponsePayload(days));
        lemma_only_step(w, CleanupStep::ResponsePayload(days));
        lemma_only_step(v, CleanupStep::ResponsePayload(days));
        lemma_only_step(p, CleanupStep::Headers(days));
        lemma_only_step(q, CleanupStep::Headers(days));
        lemma_only_step(h, CleanupStep::Headers(days));
        lemma_only_step(w, CleanupStep::Headers(days));
        lemma_only_step(v, CleanupStep::Headers(days));
        lemma_only_step(p, CleanupStep::Rows(days));
        lemma_only_step(q, CleanupStep::Rows(days));
        lemma_only_step(h, CleanupStep::Rows(days));
        lemma_only_step(w, CleanupStep::Rows(days));
        lemma_only_step(v, CleanupStep::Rows(days));
    }
}

proof fn lemma_only_step(s: Seq<CleanupStep>, x: CleanupStep)
    requires
        s.len() <= 1,
    ensures
        s.contains(x) <==> s.len() == 1 && s[0] == x,
{
    if s.contains(x) {
        assert(s.index_of(x) == 0);
    }
}

proof fn lemma_step_among(
    p: Seq<CleanupStep>,
    q: Seq<CleanupStep>,
    h: Seq<CleanupStep>,
    w: Seq<CleanupStep>,
    v: Seq<CleanupStep>,
    x: CleanupStep,
)
    ensures
        (p + q + h + w + v).contains(x) <==> p.contains(x) || q.contains(x) || h.contains(x)
            || w.contains(x) || v.contains(x),
{
    lemma_step_in_either(p, q, x);
    lemma_step_in_either(p + q, h, x);
    lemma_step_in_either(p + q + h, w, x);
    lemma_step_in_either(p + q + h + w, v, x);
}

proof fn lemma_step_in_either(a: Seq<CleanupStep>, b: Seq<CleanupStep>, x: CleanupStep)
    ensures
        (a + b).contains(x) <==> a.contains(x) || b.contains(x),
{
    if a.contains(x) {
        assert((a + b)[a.index_of(x)] == x);
    }
    if b.contains(x) {
        assert((a + b)[a.len() + b.index_of(x)] == x);
    }
    if (a + b).contains(x) {
        let k = (a + b).index_of(x);
        if k < a.len() {
            assert(a[k] == x);
        } else {
            assert(b[k - a.len()] == x);
        }
    }
}

/// The tools, providers and sources that are built in.
pub proof fn law_what_is_built_in(tools: Vec<String>, providers: Vec<LlmProvider>, sources: Vec<String>)
    requires
        call_ensures(builtin_tools, (), tools),
        call_ensures(builtin_providers, (), providers),
        call_ensures(initial_sources, (), sources),
    ensures
        texts(tools@) == seq![
            "edit_file"@,
            "grep_files"@,
            "insert_at_line"@,
            "list_files"@,
            "read_file"@,
            "replace_lines"@,
            "write_file"@,
            "get_ast_outline"@,
            "execute_cmd"@,
            "read_notification"@,
            "restart"@,
            "list_items"@,
            "toggle_item"@,
            "register_mcp"@,
            "delete_cron_job"@,
            "set_secret"@,
            "list_secrets"@,
            "configure_plugin"@,
        ],
        providers@ == seq![
            LlmProvider::OpenAi,
            LlmProvider::Anthropic,
            LlmProvider::OpenRouter,
            LlmProvider::Ollama,
            LlmProvider::LmStudio,
            LlmProvider::DeepSeek,
        ],
        texts(sources@) == seq!["web"@, "talk"@],
{
}

/// The data lie beside the directory of static files; where that has no parent,
/// in the current directory.
pub proof fn law_where_the_data_lie(static_dir: &str, r: String, base: Seq<Seq<char>>)
    requires
        call_ensures(data_dir, (static_dir,), r),
        components(static_dir@).len() > 0,
        components(static_dir@).last() != "/"@,
        base == components(static_dir@).drop_last(),
    ensures
        r@ == join_text(path_text(base), "data"@),
{
}

/// The zone of the schedules is the configured one where it is known, and the
/// line on the date takes its zone from the same setting.
pub proof fn law_zones(timezone: &Option<String>, datetime: &DatetimeConfig, r: Option<String>, d: DatetimeConfig)
    requires
        call_ensures(schedule_zone, (timezone,), r),
        call_ensures(datetime_config, (timezone, datetime), d),
    ensures
        opt_text(r) == match *timezone {
            Some(z) => crate::session::prompt::zone_name_of(z@),
            None => None,
        },
        opt_text(d.timezone) == opt_text(*timezone),
        d.enabled == datetime.enabled && d.round_minutes == datetime.round_minutes,
{
}

/// A plugin is reached below the path of plugins, under its id.
pub proof fn law_plugin_routes(id: &str, r: String)
    requires
        call_ensures(plugin_route, (id,), r),
    ensures
        r@ == "/api/plugin/"@ + id@,
{
}

} // verus!
