//! The tables and indexes of the store.
use vstd::prelude::*;

use crate::db::schema::{statement, statement_view, statement_views, Statement, StatementView};

verus! {

pub const TABLE_CHAT_SESSIONS: &'static str =
    "CREATE TABLE IF NOT EXISTS chat_sessions ( id INTEGER PRIMARY KEY AUTOINCREMENT, title TEXT, source TEXT NOT NULL DEFAULT 'web', agent_id TEXT NOT NULL DEFAULT 'main', is_interactive INTEGER NOT NULL DEFAULT 1, is_ephemeral INTEGER NOT NULL DEFAULT 0, run_context_id TEXT, created_at TEXT NOT NULL DEFAULT (datetime('now')) )";

pub const TABLE_CHAT_SESSIONS_STACK: &'static str =
    "CREATE TABLE IF NOT EXISTS chat_sessions_stack ( id INTEGER PRIMARY KEY AUTOINCREMENT, session_id INTEGER NOT NULL REFERENCES chat_sessions(id), agent_id TEXT NOT NULL DEFAULT 'main', agent_prompt TEXT, depth INTEGER NOT NULL DEFAULT 0, parent_tool_call_id INTEGER, terminated_at TEXT, created_at TEXT NOT NULL DEFAULT (datetime('now')) )";

pub const TABLE_CHAT_HISTORY: &'static str =
    "CREATE TABLE IF NOT EXISTS chat_history ( id INTEGER PRIMARY KEY AUTOINCREMENT, session_stack_id INTEGER NOT NULL REFERENCES chat_sessions_stack(id), role TEXT NOT NULL CHECK(role IN ('user', 'assistant', 'agent')), content TEXT NOT NULL DEFAULT '', status TEXT NOT NULL DEFAULT 'ok' CHECK(status IN ('ok', 'failed')), input_tokens INTEGER, output_tokens INTEGER, duration_ms INTEGER, model_db_id INTEGER REFERENCES llm_models(id), is_synthetic INTEGER NOT NULL DEFAULT 0, reasoning_content TEXT, cost REAL, created_at TEXT NOT NULL DEFAULT (datetime('now')) )";

pub const TABLE_CHAT_LLM_TOOLS: &'static str =
    "CREATE TABLE IF NOT EXISTS chat_llm_tools ( id INTEGER PRIMARY KEY AUTOINCREMENT, message_id INTEGER NOT NULL REFERENCES chat_history(id), name TEXT NOT NULL, arguments TEXT, result TEXT, status TEXT NOT NULL DEFAULT 'running' CHECK(status IN ('running', 'pending', 'done', 'failed')), created_at TEXT NOT NULL DEFAULT (datetime('now')) )";

pub const IDX_STACK_SESSION: &'static str =
    "CREATE INDEX IF NOT EXISTS idx_stack_session ON chat_sessions_stack(session_id)";

pub const IDX_HISTORY_STACK: &'static str =
    "CREATE INDEX IF NOT EXISTS idx_history_stack ON chat_history(session_stack_id)";

pub const IDX_TOOLS_MESSAGE: &'static str =
    "CREATE INDEX IF NOT EXISTS idx_tools_message ON chat_llm_tools(message_id)";

pub const TABLE_MCP_SERVERS: &'static str =
    "CREATE TABLE IF NOT EXISTS mcp_servers ( id INTEGER PRIMARY KEY AUTOINCREMENT, name TEXT NOT NULL UNIQUE, transport TEXT NOT NULL DEFAULT 'stdio', command TEXT, args_json TEXT, env_json TEXT, url TEXT, api_key TEXT, description TEXT, friendly_name TEXT, enabled INTEGER NOT NULL DEFAULT 1, created_at TEXT NOT NULL DEFAULT (datetime('now')) )";

pub const COLUMN_MCP_SERVERS_DESCRIPTION: &'static str =
    "ALTER TABLE mcp_servers ADD COLUMN description TEXT";

pub const COLUMN_MCP_SERVERS_FRIENDLY_NAME: &'static str =
    "ALTER TABLE mcp_servers ADD COLUMN friendly_name TEXT";

pub const TABLE_LLM_PROVIDERS: &'static str =
    "CREATE TABLE IF NOT EXISTS llm_providers ( id INTEGER PRIMARY KEY AUTOINCREMENT, name TEXT NOT NULL UNIQUE, type TEXT NOT NULL, api_key TEXT, base_url TEXT, description TEXT, removed_at TEXT, created_at TEXT NOT NULL DEFAULT (datetime('now')) )";

pub const TABLE_LLM_MODELS: &'static str =
    "CREATE TABLE IF NOT EXISTS llm_models ( id INTEGER PRIMARY KEY AUTOINCREMENT, provider_id INTEGER NOT NULL REFERENCES llm_providers(id) ON DELETE CASCADE, model_id TEXT NOT NULL, name TEXT NOT NULL UNIQUE, strength TEXT, scope TEXT NOT NULL DEFAULT '[]', is_default INTEGER NOT NULL DEFAULT 0, priority INTEGER NOT NULL DEFAULT 100, extra_params TEXT, removed_at TEXT, context_length INTEGER, max_output_tokens INTEGER, knowledge_cutoff TEXT, capabilities TEXT NOT NULL DEFAULT '[]', created_at TEXT NOT NULL DEFAULT (datetime('now')), UNIQUE(provider_id, model_id) )";

pub const TABLE_SCHEDULED_JOBS: &'static str =
    "CREATE TABLE IF NOT EXISTS scheduled_jobs ( id INTEGER PRIMARY KEY AUTOINCREMENT, title TEXT NOT NULL, description TEXT NOT NULL DEFAULT '', cron TEXT NOT NULL, prompt TEXT NOT NULL, agent_id TEXT NOT NULL DEFAULT 'main', session_id INTEGER REFERENCES chat_sessions(id), enabled INTEGER NOT NULL DEFAULT 1, last_run_at TEXT, next_run_at TEXT, single_run INTEGER NOT NULL DEFAULT 0, running_session_id INTEGER, kind TEXT NOT NULL DEFAULT 'cron', created_at TEXT NOT NULL DEFAULT (datetime('now')) )";

pub const TABLE_PLUGINS: &'static str =
    "CREATE TABLE IF NOT EXISTS plugins ( id TEXT PRIMARY KEY, enabled INTEGER NOT NULL DEFAULT 0, config TEXT NOT NULL DEFAULT '{}', created_at TEXT NOT NULL DEFAULT (datetime('now')) )";

pub const TABLE_SESSION_SCRATCHPAD: &'static str =
    "CREATE TABLE IF NOT EXISTS session_scratchpad ( session_id INTEGER NOT NULL REFERENCES chat_sessions(id), key TEXT NOT NULL, value TEXT NOT NULL, PRIMARY KEY (session_id, key) )";

pub const TABLE_TOOL_PERMISSION_GROUPS: &'static str =
    "CREATE TABLE IF NOT EXISTS tool_permission_groups ( id TEXT PRIMARY KEY, name TEXT NOT NULL, description TEXT, created_at TEXT NOT NULL DEFAULT (datetime('now')) )";

pub const TABLE_APPROVAL_RULES: &'static str =
    "CREATE TABLE IF NOT EXISTS approval_rules ( id INTEGER PRIMARY KEY AUTOINCREMENT, agent_id TEXT, source TEXT, tool_pattern TEXT NOT NULL, action TEXT NOT NULL DEFAULT 'require' CHECK(action IN ('require', 'allow', 'deny')), note TEXT, priority INTEGER NOT NULL DEFAULT 100, path_pattern TEXT, group_id TEXT REFERENCES tool_permission_groups(id), created_at TEXT NOT NULL DEFAULT (datetime('now')) )";

pub const TABLE_TRANSCRIBE_MODELS: &'static str =
    "CREATE TABLE IF NOT EXISTS transcribe_models ( id INTEGER PRIMARY KEY AUTOINCREMENT, provider_id INTEGER NOT NULL REFERENCES llm_providers(id), model_id TEXT NOT NULL, name TEXT NOT NULL UNIQUE, language TEXT, priority INTEGER NOT NULL DEFAULT 100, removed_at TEXT, created_at TEXT NOT NULL DEFAULT (datetime('now')), UNIQUE(provider_id, model_id) )";

pub const TABLE_IMAGE_GENERATE_MODELS: &'static str =
    "CREATE TABLE IF NOT EXISTS image_generate_models ( id INTEGER PRIMARY KEY AUTOINCREMENT, provider_id INTEGER NOT NULL REFERENCES llm_providers(id), model_id TEXT NOT NULL, name TEXT NOT NULL UNIQUE, priority INTEGER NOT NULL DEFAULT 100, removed_at TEXT, created_at TEXT NOT NULL DEFAULT (datetime('now')), UNIQUE(provider_id, model_id) )";

pub const TABLE_TTS_MODELS: &'static str =
    "CREATE TABLE IF NOT EXISTS tts_models ( id INTEGER PRIMARY KEY AUTOINCREMENT, provider_id INTEGER NOT NULL REFERENCES llm_providers(id), model_id TEXT NOT NULL, name TEXT NOT NULL UNIQUE, description TEXT, instructions TEXT, priority INTEGER NOT NULL DEFAULT 100, removed_at TEXT, created_at TEXT NOT NULL DEFAULT (datetime('now')), UNIQUE(provider_id, model_id) )";

pub const TABLE_SOURCES: &'static str =
    "CREATE TABLE IF NOT EXISTS sources ( id TEXT PRIMARY KEY, active_session_id INTEGER REFERENCES chat_sessions(id), updated_at TEXT NOT NULL DEFAULT (datetime('now')) )";

pub const TABLE_CONFIG: &'static str =
    "CREATE TABLE IF NOT EXISTS config ( key TEXT PRIMARY KEY, value TEXT NOT NULL, updated_at TEXT NOT NULL DEFAULT (datetime('now')) )";

pub const TABLE_SECRETS: &'static str =
    "CREATE TABLE IF NOT EXISTS secrets ( key TEXT PRIMARY KEY, value TEXT NOT NULL, created_at TEXT NOT NULL DEFAULT (datetime('now')), updated_at TEXT NOT NULL DEFAULT (datetime('now')) )";

pub const TABLE_MCP_EVENTS: &'static str =
    "CREATE TABLE IF NOT EXISTS mcp_events ( id INTEGER PRIMARY KEY AUTOINCREMENT, source TEXT NOT NULL, method TEXT NOT NULL, payload TEXT NOT NULL, processed INTEGER NOT NULL DEFAULT 0, processed_at TEXT, created_at TEXT NOT NULL DEFAULT (datetime('now')) )";

pub const IDX_MCP_EVENTS_PENDING: &'static str =
    "CREATE INDEX IF NOT EXISTS idx_mcp_events_pending ON mcp_events (processed, created_at) WHERE processed = 0";

pub const TABLE_SESSION_MCP_GRANTS: &'static str =
    "CREATE TABLE IF NOT EXISTS session_mcp_grants ( id INTEGER PRIMARY KEY AUTOINCREMENT, session_id INTEGER NOT NULL, mcp_name TEXT NOT NULL, granted_at TEXT NOT NULL DEFAULT (datetime('now')), UNIQUE(session_id, mcp_name) )";

pub const TABLE_STACK_MCP_GRANTS: &'static str =
    "CREATE TABLE IF NOT EXISTS stack_mcp_grants ( id INTEGER PRIMARY KEY AUTOINCREMENT, stack_id INTEGER NOT NULL, mcp_name TEXT NOT NULL, granted_at TEXT NOT NULL DEFAULT (datetime('now')), UNIQUE(stack_id, mcp_name) )";

pub const TABLE_LLM_REQUESTS: &'static str =
    "CREATE TABLE IF NOT EXISTS llm_requests ( id INTEGER PRIMARY KEY AUTOINCREMENT, session_id INTEGER, stack_id INTEGER, model_name TEXT NOT NULL, request_json TEXT NOT NULL DEFAULT '', request_headers TEXT, response_json TEXT, response_headers TEXT, error_text TEXT, input_tokens INTEGER, output_tokens INTEGER, duration_ms INTEGER NOT NULL DEFAULT 0, created_at TEXT NOT NULL DEFAULT (datetime('now')) )";

pub const IDX_LLM_REQUESTS_CREATED: &'static str =
    "CREATE INDEX IF NOT EXISTS idx_llm_requests_created ON llm_requests (created_at)";

pub const TABLE_CHAT_SUMMARIES: &'static str =
    "CREATE TABLE IF NOT EXISTS chat_summaries ( id INTEGER PRIMARY KEY AUTOINCREMENT, stack_id INTEGER NOT NULL REFERENCES chat_sessions_stack(id), content TEXT NOT NULL, covers_up_to_message_id INTEGER NOT NULL, created_at TEXT NOT NULL DEFAULT (datetime('now')) )";

pub const IDX_CHAT_SUMMARIES_STACK: &'static str =
    "CREATE INDEX IF NOT EXISTS idx_chat_summaries_stack ON chat_summaries (stack_id)";

pub const TABLE_JOB_RUNS: &'static str =
    "CREATE TABLE IF NOT EXISTS job_runs ( id INTEGER PRIMARY KEY AUTOINCREMENT, job_id INTEGER NOT NULL REFERENCES scheduled_jobs(id), session_id INTEGER, started_at TEXT NOT NULL, completed_at TEXT, duration_ms INTEGER, status TEXT NOT NULL CHECK(status IN ('completed', 'failed', 'cancelled')), final_response TEXT, error TEXT, created_at TEXT NOT NULL DEFAULT (datetime('now')) )";

pub const IDX_JOB_RUNS_JOB_ID: &'static str =
    "CREATE INDEX IF NOT EXISTS idx_job_runs_job_id ON job_runs (job_id, created_at DESC)";

pub const TABLE_PROJECTS: &'static str =
    "CREATE TABLE IF NOT EXISTS projects ( id INTEGER PRIMARY KEY AUTOINCREMENT, name TEXT NOT NULL, path TEXT NOT NULL, description TEXT NOT NULL DEFAULT '', run_context TEXT, created_at TEXT NOT NULL DEFAULT (datetime('now')), updated_at TEXT NOT NULL DEFAULT (datetime('now')) )";

pub const TABLE_PROJECT_TICKETS: &'static str =
    "CREATE TABLE IF NOT EXISTS project_tickets ( id INTEGER PRIMARY KEY AUTOINCREMENT, project_id INTEGER NOT NULL REFERENCES projects(id) ON DELETE CASCADE, title TEXT NOT NULL, description TEXT NOT NULL DEFAULT '', status TEXT NOT NULL DEFAULT 'todo' CHECK(status IN ('todo','pending','in_progress','done','failed')), agent_id TEXT NOT NULL DEFAULT 'main', run_context TEXT, job_id INTEGER REFERENCES scheduled_jobs(id), result TEXT, error TEXT, created_at TEXT NOT NULL DEFAULT (datetime('now')), started_at TEXT, completed_at TEXT )";

/// The statements that create what is missing, in order. The columns of an
/// older table may be there already, so adding them may fail.
pub open spec fn create_plan() -> Seq<StatementView> {
    seq![
        (TABLE_CHAT_SESSIONS@, Seq::empty(), false),
        (TABLE_CHAT_SESSIONS_STACK@, Seq::empty(), false),
        (TABLE_CHAT_HISTORY@, Seq::empty(), false),
        (TABLE_CHAT_LLM_TOOLS@, Seq::empty(), false),
        (IDX_STACK_SESSION@, Seq::empty(), false),
        (IDX_HISTORY_STACK@, Seq::empty(), false),
        (IDX_TOOLS_MESSAGE@, Seq::empty(), false),
        (TABLE_MCP_SERVERS@, Seq::empty(), false),
        (COLUMN_MCP_SERVERS_DESCRIPTION@, Seq::empty(), true),
        (COLUMN_MCP_SERVERS_FRIENDLY_NAME@, Seq::empty(), true),
        (TABLE_LLM_PROVIDERS@, Seq::empty(), false),
        (TABLE_LLM_MODELS@, Seq::empty(), false),
        (TABLE_SCHEDULED_JOBS@, Seq::empty(), false),
        (TABLE_PLUGINS@, Seq::empty(), false),
        (TABLE_SESSION_SCRATCHPAD@, Seq::empty(), false),
        (TABLE_TOOL_PERMISSION_GROUPS@, Seq::empty(), false),
        (TABLE_APPROVAL_RULES@, Seq::empty(), false),
        (TABLE_TRANSCRIBE_MODELS@, Seq::empty(), false),
        (TABLE_IMAGE_GENERATE_MODELS@, Seq::empty(), false),
        (TABLE_TTS_MODELS@, Seq::empty(), false),
        (TABLE_SOURCES@, Seq::empty(), false),
        (TABLE_CONFIG@, Seq::empty(), false),
        (TABLE_SECRETS@, Seq::empty(), false),
        (TABLE_MCP_EVENTS@, Seq::empty(), false),
        (IDX_MCP_EVENTS_PENDING@, Seq::empty(), false),
        (TABLE_SESSION_MCP_GRANTS@, Seq::empty(), false),
        (TABLE_STACK_MCP_GRANTS@, Seq::empty(), false),
        (TABLE_LLM_REQUESTS@, Seq::empty(), false),
        (IDX_LLM_REQUESTS_CREATED@, Seq::empty(), false),
        (TABLE_CHAT_SUMMARIES@, Seq::empty(), false),
        (IDX_CHAT_SUMMARIES_STACK@, Seq::empty(), false),
        (TABLE_JOB_RUNS@, Seq::empty(), false),
        (IDX_JOB_RUNS_JOB_ID@, Seq::empty(), false),
        (TABLE_PROJECTS@, Seq::empty(), false),
        (TABLE_PROJECT_TICKETS@, Seq::empty(), false),
    ]
}

/// The statements that create the tables and indexes.
pub fn create_tables() -> (r: Vec<Statement>)
    ensures
        statement_views(r@) == create_plan(),
{
    let mut out: Vec<Statement> = Vec::new();
    out.push(statement(TABLE_CHAT_SESSIONS, false));
    out.push(statement(TABLE_CHAT_SESSIONS_STACK, false));
    out.push(statement(TABLE_CHAT_HISTORY, false));
    out.push(statement(TABLE_CHAT_LLM_TOOLS, false));
    out.push(statement(IDX_STACK_SESSION, false));
    out.push(statement(IDX_HISTORY_STACK, false));
    out.push(statement(IDX_TOOLS_MESSAGE, false));
    out.push(statement(TABLE_MCP_SERVERS, false));
    out.push(statement(COLUMN_MCP_SERVERS_DESCRIPTION, true));
    out.push(statement(COLUMN_MCP_SERVERS_FRIENDLY_NAME, true));
    out.push(statement(TABLE_LLM_PROVIDERS, false));
    out.push(statement(TABLE_LLM_MODELS, false));
    out.push(statement(TABLE_SCHEDULED_JOBS, false));
    out.push(statement(TABLE_PLUGINS, false));
    out.push(statement(TABLE_SESSION_SCRATCHPAD, false));
    out.push(statement(TABLE_TOOL_PERMISSION_GROUPS, false));
    out.push(statement(TABLE_APPROVAL_RULES, false));
    out.push(statement(TABLE_TRANSCRIBE_MODELS, false));
    out.push(statement(TABLE_IMAGE_GENERATE_MODELS, false));
    out.push(statement(TABLE_TTS_MODELS, false));
    out.push(statement(TABLE_SOURCES, false));
    out.push(statement(TABLE_CONFIG, false));
    out.push(statement(TABLE_SECRETS, false));
    out.push(statement(TABLE_MCP_EVENTS, false));
    out.push(statement(IDX_MCP_EVENTS_PENDING, false));
    out.push(statement(TABLE_SESSION_MCP_GRANTS, false));
    out.push(statement(TABLE_STACK_MCP_GRANTS, false));
    out.push(statement(TABLE_LLM_REQUESTS, false));
    out.push(statement(IDX_LLM_REQUESTS_CREATED, false));
    out.push(statement(TABLE_CHAT_SUMMARIES, false));
    out.push(statement(IDX_CHAT_SUMMARIES_STACK, false));
    out.push(statement(TABLE_JOB_RUNS, false));
    out.push(statement(IDX_JOB_RUNS_JOB_ID, false));
    out.push(statement(TABLE_PROJECTS, false));
    out.push(statement(TABLE_PROJECT_TICKETS, false));
    assert(statement_views(out@) =~= create_plan());
    out
}

/// Nothing is bound to the statements that create tables, and none of them may
/// fail but the two that add a column to a table that may have it already.
/// Tables stand before their indexes and before the tables that refer to them.
pub proof fn law_tables_are_created(r: Vec<Statement>, i: int)
    requires
        call_ensures(create_tables, (), r),
        0 <= i < r@.len(),
    ensures
        r@.len() == 35,
        r@[i].binds@.len() == 0,
        r@[i].may_fail <==> i == 8 || i == 9,
        r@[8].sql@ == COLUMN_MCP_SERVERS_DESCRIPTION@ && r@[9].sql@
            == COLUMN_MCP_SERVERS_FRIENDLY_NAME@ && r@[7].sql@ == TABLE_MCP_SERVERS@,
        r@[0].sql@ == TABLE_CHAT_SESSIONS@ && r@[1].sql@ == TABLE_CHAT_SESSIONS_STACK@ && r@[2].sql@
            == TABLE_CHAT_HISTORY@ && r@[3].sql@ == TABLE_CHAT_LLM_TOOLS@,
        r@[4].sql@ == IDX_STACK_SESSION@ && r@[5].sql@ == IDX_HISTORY_STACK@ && r@[6].sql@
            == IDX_TOOLS_MESSAGE@,
        r@[10].sql@ == TABLE_LLM_PROVIDERS@ && r@[11].sql@ == TABLE_LLM_MODELS@ && r@[12].sql@
            == TABLE_SCHEDULED_JOBS@ && r@[13].sql@ == TABLE_PLUGINS@ && r@[14].sql@
            == TABLE_SESSION_SCRATCHPAD@,
        r@[15].sql@ == TABLE_TOOL_PERMISSION_GROUPS@ && r@[16].sql@ == TABLE_APPROVAL_RULES@,
        r@[17].sql@ == TABLE_TRANSCRIBE_MODELS@ && r@[18].sql@ == TABLE_IMAGE_GENERATE_MODELS@
            && r@[19].sql@ == TABLE_TTS_MODELS@,
        r@[20].sql@ == TABLE_SOURCES@ && r@[21].sql@ == TABLE_CONFIG@ && r@[22].sql@
            == TABLE_SECRETS@,
        r@[23].sql@ == TABLE_MCP_EVENTS@ && r@[24].sql@ == IDX_MCP_EVENTS_PENDING@,
        r@[25].sql@ == TABLE_SESSION_MCP_GRANTS@ && r@[26].sql@ == TABLE_STACK_MCP_GRANTS@,
        r@[27].sql@ == TABLE_LLM_REQUESTS@ && r@[28].sql@ == IDX_LLM_REQUESTS_CREATED@,
        r@[29].sql@ == TABLE_CHAT_SUMMARIES@ && r@[30].sql@ == IDX_CHAT_SUMMARIES_STACK@,
        r@[31].sql@ == TABLE_JOB_RUNS@ && r@[32].sql@ == IDX_JOB_RUNS_JOB_ID@,
        r@[33].sql@ == TABLE_PROJECTS@ && r@[34].sql@ == TABLE_PROJECT_TICKETS@,
{
    let v = statement_views(r@);
    assert(v.len() == r@.len());
    assert forall|k: int| 0 <= k < r@.len() implies (#[trigger] r@[k]).sql@ == create_plan()[k].0
        && r@[k].may_fail == create_plan()[k].2 && r@[k].binds@.len() == create_plan()[k].1.len() by {
        assert(v[k] == statement_view(r@[k]));
    }
}

} // verus!
