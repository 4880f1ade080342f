use skald::db::mcp_servers::{arguments_in, from_raw, variables_in, McpServerRow, RawRow};
use skald::db::scheduled_jobs::ScheduledJob;
use skald::db::session_mcp_grants::{grant, grant_all, revoke_all};
use skald::json::{parse_json, write_json, Json};
use skald::mcp::{
    cfg_from_row, notification_event, McpManager, McpServerStatus, McpTool, McpTransport,
    StartOutcome,
};
use skald::approval::rules::mcp_server_from_tool_name;
use skald::tools::catalog::{category_str, parse_mcp_tool_name, ToolCatalog};
use skald::tools::images::{ImageGenerateProvidersList, ImageGenerateTool};
use skald::tools::items::{AgentInfo, ItemType, ListItems, ToggleItem, ToggleTarget};
use skald::tools::mcp_tools::{ListMcp, RegisterMcp, ShowMcpTools};
use skald::tools::plugins::ConfigurePlugin;
use skald::tools::registry::{ToolMeta, ToolRegistry};
use skald::tools::secrets::{ListSecrets, SecretChange, SetSecret};
use skald::tools::tasks::{DeleteCronJob, ExecuteTask, TaskMode};
use skald::tools::{
    is_file_read_tool, is_file_write_tool, ToolCategory, ToolDescriptionLength, MAX_LABEL_FULL,
    MAX_LABEL_SHORT,
};

fn args(text: &str) -> Json {
    parse_json(text).unwrap()
}

fn job(id: i64, title: &str) -> ScheduledJob {
    ScheduledJob {
        id,
        title: title.to_string(),
        description: "d".to_string(),
        cron: "0 0 9 * * * *".to_string(),
        prompt: "p".to_string(),
        agent_id: "worker".to_string(),
        session_id: None,
        enabled: true,
        last_run_at: None,
        next_run_at: Some("2030-01-01T09:00:00+00:00".to_string()),
        single_run: false,
        running_session_id: None,
        kind: "cron".to_string(),
        created_at: "2029-01-01".to_string(),
    }
}

#[test]
fn file_tools_are_told_apart() {
    assert!(is_file_write_tool("edit_file"));
    assert!(!is_file_write_tool("read_file"));
    assert!(is_file_read_tool("get_ast_outline"));
    assert!(!is_file_read_tool("write_file"));
}

#[test]
fn listings_name_their_type() {
    let t = ListItems;
    assert_eq!(t.name(), "list_items");
    assert_eq!(t.category(), ToolCategory::Introspection);
    assert_eq!(t.kind(&args("{\"type\":\"mcp\"}")), Ok(ItemType::Mcp));
    assert_eq!(t.kind(&args("{\"type\":\"plugins\"}")), Ok(ItemType::Plugins));
    assert_eq!(t.kind(&args("{\"type\":\"cron\"}")), Ok(ItemType::Cron));
    assert_eq!(t.kind(&args("{\"type\":\"agents\"}")), Ok(ItemType::Agents));
    assert_eq!(
        t.kind(&args("{}")),
        Err("list_items: missing required argument `type`".to_string())
    );
    assert_eq!(
        t.kind(&args("{\"type\":\"x\"}")),
        Err("list_items: unknown type `x` (expected one of: mcp, plugins, cron, agents)".to_string())
    );
    assert_eq!(t.describe(&args("{\"type\":\"cron\"}")), "list cron");
    assert_eq!(t.describe(&args("{}")), "list ?");
}

#[test]
fn jobs_are_listed_as_json() {
    let t = ListItems;
    assert_eq!(t.jobs(&Vec::new()), "No tasks configured.");
    let out = t.jobs(&vec![job(3, "Digest")]);
    let back = parse_json(&out).unwrap();
    let j = back.item(0).unwrap();
    assert_eq!(j.i64_field("id"), Some(3));
    assert_eq!(j.text_field("title"), Some("Digest".to_string()));
    assert!(matches!(j.get("last_run_at"), Some(Json::Null)));
    assert!(out.starts_with("[\n  {\n    \"agent_id\": \"worker\","));
}

#[test]
fn main_and_system_agents_are_not_listed() {
    let agent = |id: &str, system: bool, client: Option<&str>| AgentInfo {
        id: id.to_string(),
        name: id.to_uppercase(),
        description: "d".to_string(),
        client: client.map(str::to_string),
        is_system_agent: system,
    };
    let out = ListItems.agents(&vec![
        agent("main", false, None),
        agent("coder", false, Some("gpt")),
        agent("tic", true, None),
        agent("writer", false, None),
    ]);
    let back = parse_json(&out).unwrap();
    assert_eq!(back.item(0).unwrap().text_field("id"), Some("coder".to_string()));
    assert_eq!(back.item(0).unwrap().text_field("client"), Some("gpt".to_string()));
    assert_eq!(back.item(1).unwrap().text_field("id"), Some("writer".to_string()));
    assert!(back.item(1).unwrap().get("client").is_none());
    assert!(back.item(2).is_none());
}

#[test]
fn toggles_are_checked() {
    let t = ToggleItem;
    assert_eq!(t.name(), "toggle_item");
    let err = |a: &str| t.request(&args(a)).unwrap_err();
    assert_eq!(err("{}"), "toggle_item: missing required argument `kind`");
    assert_eq!(err("{\"kind\":\"mcp\"}"), "toggle_item: missing required argument `id`");
    assert_eq!(
        err("{\"kind\":\"mcp\",\"id\":\"a\"}"),
        "toggle_item: missing required argument `enabled`"
    );
    assert_eq!(
        err("{\"kind\":\"cron\",\"id\":\"x1\",\"enabled\":true}"),
        "toggle_item: for kind=cron, `id` must be a numeric job id (got 'x1')"
    );
    assert_eq!(
        err("{\"kind\":\"z\",\"id\":\"a\",\"enabled\":true}"),
        "toggle_item: unknown kind `z` (expected one of: mcp, plugin, cron)"
    );
    let q = t.request(&args("{\"kind\":\"cron\",\"id\":\"12\",\"enabled\":false}")).unwrap();
    assert!(matches!(q.target, ToggleTarget::Cron(12)));
    assert_eq!(t.reply(&q, true), "Task 12 disabled.");
    assert_eq!(t.reply(&q, false), "No task with id 12.");
    let q = t.request(&args("{\"kind\":\"mcp\",\"id\":\"g\",\"enabled\":true}")).unwrap();
    assert_eq!(
        t.reply(&q, true),
        "MCP server 'g' is now enabled. Note: a restart is required for the change to take effect on running servers."
    );
    let q = t.request(&args("{\"kind\":\"plugin\",\"id\":\"g\",\"enabled\":false}")).unwrap();
    assert_eq!(t.reply(&q, true), "Plugin 'g' is now disabled and stopped.");
    assert_eq!(t.describe(&args("{\"kind\":\"mcp\",\"id\":\"g\"}")), "enable mcp `g`");
}

#[test]
fn tasks_are_checked() {
    let t = ExecuteTask;
    let err = |a: &str| t.request(&args(a)).unwrap_err();
    assert_eq!(err("{\"mode\":\"sync\",\"title\":\"  \"}"), "title is required");
    assert_eq!(err("{\"mode\":\"sync\",\"title\":\"t\"}"), "prompt is required");
    assert_eq!(
        err("{\"mode\":\"cron\",\"title\":\"t\",\"prompt\":\"p\"}"),
        "cron expression is required for mode=cron"
    );
    assert_eq!(
        err("{\"mode\":\"x\",\"title\":\"t\",\"prompt\":\"p\"}"),
        "mode must be one of: cron, sync, async"
    );
    let q = t.request(&args("{\"mode\":\" async \",\"title\":\" t \",\"prompt\":\"p\"}")).unwrap();
    assert_eq!(q.mode, TaskMode::Async);
    assert_eq!(q.title, "t");
    assert_eq!(q.agent_id, "worker");
    assert_eq!(q.description, "");
}

#[test]
fn created_tasks_are_announced() {
    let t = ExecuteTask;
    let out = parse_json(&t.scheduled(5, "Digest", true, &None)).unwrap();
    assert_eq!(out.i64_field("task_id"), Some(5));
    assert_eq!(out.bool_field("recurring"), Some(false));
    assert_eq!(
        out.text_field("message"),
        Some("Created one-shot cron task 5 — 'Digest'".to_string())
    );
    let out = parse_json(&t.scheduled(5, "Digest", false, &Some("soon".to_string()))).unwrap();
    assert_eq!(out.text_field("next_run_at"), Some("soon".to_string()));
    assert_eq!(
        out.text_field("message"),
        Some("Created recurring cron task 5 — 'Digest'".to_string())
    );
    let out = parse_json(&t.started(6, "Scan")).unwrap();
    assert_eq!(out.text_field("status"), Some("started".to_string()));
    assert!(out
        .text_field("message")
        .unwrap()
        .starts_with("Task 6 ('Scan') is running in the background. The system will"));
}

#[test]
fn tasks_are_deleted_by_number() {
    let t = DeleteCronJob;
    assert_eq!(t.request(&args("{\"id\":4}")), Ok(4));
    assert_eq!(t.request(&args("{\"id\":\"4\"}")), Err("id must be an integer".to_string()));
    assert_eq!(t.reply(4, true), "Task 4 deleted.");
    assert_eq!(t.reply(4, false), "No task with id 4.");
    assert_eq!(t.describe(&args("{\"id\":4}")), "delete cron job #4");
    assert_eq!(t.describe(&args("{}")), "delete cron job #?");
}

#[test]
fn secrets_are_stored_and_deleted() {
    let t = SetSecret;
    assert_eq!(
        t.request(&args("{}")).unwrap_err(),
        "set_secret: missing required argument `key`"
    );
    let c = t.request(&args("{\"key\":\"K\",\"value\":\"v\"}")).unwrap();
    assert!(matches!(&c, SecretChange::Store(k, v) if k == "K" && v == "v"));
    assert_eq!(t.reply(&c), "Secret 'K' set.");
    for a in ["{\"key\":\"K\",\"value\":\"\"}", "{\"key\":\"K\",\"value\":null}", "{\"key\":\"K\"}"] {
        let c = t.request(&args(a)).unwrap();
        assert_eq!(t.reply(&c), "Secret 'K' deleted.");
    }
    assert_eq!(t.describe(&args("{\"key\":\"K\"}")), "set secret K");
}

#[test]
fn secrets_are_listed_by_pattern() {
    let t = ListSecrets;
    let keys: Vec<String> =
        ["GOOGLE_ID", "HF_TOKEN", "GOOGLE_KEY"].iter().map(|k| k.to_string()).collect();
    assert_eq!(
        t.filter(&args("{\"pattern\":\"GOOGLE_*\"}"), &keys),
        vec!["GOOGLE_ID".to_string(), "GOOGLE_KEY".to_string()]
    );
    assert_eq!(t.execute(&args("{\"pattern\":\"*_TOKEN\"}"), &keys), "[\n  \"HF_TOKEN\"\n]");
    assert_eq!(t.filter(&args("{}"), &keys).len(), 3);
    assert_eq!(t.describe(&args("{\"pattern\":\"HF_*\"}")), "list secrets (HF_*)");
    assert_eq!(t.describe(&args("{}")), "list secrets");
}

#[test]
fn plugins_are_configured() {
    let t = ConfigurePlugin;
    assert_eq!(
        t.request(&args("{}")).unwrap_err(),
        "configure_plugin: missing required argument `id`"
    );
    assert_eq!(
        t.request(&args("{\"id\":\"p\",\"config\":[]}")).unwrap_err(),
        "configure_plugin: `config` must be an object"
    );
    let q = t.request(&args("{\"id\":\"p\",\"config\":{\"port\":[1]}}")).unwrap();
    assert_eq!(write_json(&q.config), "{\"port\":[1]}");
    assert_eq!(t.reply(&q), "Plugin 'p' configured and started.");
    let q = t.request(&args("{\"id\":\"p\",\"config\":{},\"enabled\":false}")).unwrap();
    assert_eq!(t.reply(&q), "Plugin 'p' configured and stopped.");
    assert_eq!(t.describe(&args("{\"id\":\"p\",\"enabled\":false}")), "disable plugin `p`");
    assert_eq!(t.describe(&args("{}")), "configure plugin `?`");
}

#[test]
fn images_are_asked_for() {
    assert_eq!(ImageGenerateProvidersList.describe(), "list image providers");
    let t = ImageGenerateTool;
    assert_eq!(t.request(&args("{}")).err(), Some("missing provider_id".to_string()));
    assert_eq!(
        t.request(&args("{\"provider_id\":\"x\"}")).err(),
        Some("missing prompt".to_string())
    );
    let a = args("{\"provider_id\":\"x\",\"prompt\":\"a cat\",\"extra_params\":{\"w\":1}}");
    let q = t.request(&a).unwrap();
    assert_eq!(q.prompt, "a cat");
    assert_eq!(q.extra_params.unwrap().i64_field("w"), Some(1));
    let b = args("{\"provider_id\":\"x\",\"prompt\":\"a cat\",\"extra_params\":3}");
    assert!(t.request(&b).unwrap().extra_params.is_none());
    assert_eq!(
        t.describe(&a, ToolDescriptionLength::Short),
        ("generate image (x)".to_string(), MAX_LABEL_SHORT)
    );
    assert_eq!(
        t.describe(&a, ToolDescriptionLength::Full),
        ("generate image (x): a cat".to_string(), MAX_LABEL_FULL)
    );
    assert_eq!(t.reply("p.png", "/u"), "{\"path\":\"p.png\",\"url\":\"/u\"}");
}

#[test]
fn registered_arguments_read_back() {
    let t = RegisterMcp;
    assert_eq!(
        t.request(&args("{}")).err(),
        Some("register_mcp: missing required argument `name`".to_string())
    );
    assert_eq!(
        t.request(&args("{\"name\":\"g\"}")).err(),
        Some("register_mcp: missing required argument `transport`".to_string())
    );
    let a = args(
        "{\"name\":\"g\",\"transport\":\"stdio\",\"command\":\"npx\",\"args\":[\"-y\",\"p\"],\"env\":{\"B\":\"2\",\"A\":\"1\"}}",
    );
    let p = t.request(&a).unwrap();
    assert_eq!(p.command, Some("npx"));
    assert_eq!(p.url, None);
    let row = from_raw(RawRow {
        id: 1,
        name: p.name.to_string(),
        transport: p.transport.to_string(),
        command: p.command.map(str::to_string),
        args_json: p.args_json.clone(),
        env_json: p.env_json.clone(),
        url: None,
        api_key: None,
        description: None,
        friendly_name: None,
        enabled: 2,
    });
    assert!(row.enabled);
    assert_eq!(row.args(), vec!["-y".to_string(), "p".to_string()]);
    let env = row.env();
    assert_eq!(
        env,
        vec![("A".to_string(), "1".to_string()), ("B".to_string(), "2".to_string())]
    );
    let cfg = cfg_from_row(&row);
    assert_eq!(cfg.transport, McpTransport::Stdio);
    assert_eq!(cfg.args.unwrap().len(), 2);
    let none: Vec<String> = Vec::new();
    assert_eq!(
        t.reply("g", &none),
        "MCP server 'g' registered and connected. Tools: (none)"
    );
    assert_eq!(
        t.reply("g", &vec!["a".to_string(), "b".to_string()]),
        "MCP server 'g' registered and connected. Tools: a, b"
    );
    assert_eq!(ListMcp.name(), "list_mcp");
}

#[test]
fn malformed_arguments_count_as_none() {
    assert!(arguments_in(&parse_json("[1]")).is_empty());
    assert!(arguments_in(&None).is_empty());
    assert!(variables_in(&parse_json("{\"a\":1}")).is_empty());
}

fn row(name: &str, enabled: bool) -> McpServerRow {
    McpServerRow {
        id: 1,
        name: name.to_string(),
        transport: "sse".to_string(),
        command: None,
        args_json: Some("oops".to_string()),
        env_json: None,
        url: Some("http://x".to_string()),
        api_key: None,
        description: None,
        friendly_name: None,
        enabled,
    }
}

fn tool(server: &str, name: &str) -> McpTool {
    McpTool {
        server_name: server.to_string(),
        name: name.to_string(),
        description: format!("does {name}"),
    }
}

#[test]
fn servers_are_listed_with_their_status() {
    let mut m = McpManager::new();
    m.started("a".to_string(), StartOutcome::Ready(vec![tool("a", "x"), tool("a", "y")]));
    m.started("b".to_string(), StartOutcome::Failed("boom".to_string()));
    m.started("c".to_string(), StartOutcome::TimedOut);
    let rows = vec![row("a", true), row("b", true), row("c", true), row("d", true), row("a", false)];
    let infos = m.list(rows);
    assert!(matches!(&infos[0].status, McpServerStatus::Running { tools } if tools.len() == 2));
    assert!(matches!(&infos[1].status, McpServerStatus::Error { message } if message == "boom"));
    assert!(
        matches!(&infos[2].status, McpServerStatus::Error { message } if message == "startup timed out after 120s")
    );
    assert!(
        matches!(&infos[3].status, McpServerStatus::Error { message } if message == "not connected")
    );
    assert!(matches!(&infos[4].status, McpServerStatus::Disabled));
    let cfg = cfg_from_row(&row("a", true));
    assert_eq!(cfg.transport, McpTransport::Sse);
    assert!(cfg.args.is_none());
    assert!(cfg.env.is_none());
}

#[test]
fn registering_clears_the_error() {
    let mut m = McpManager::new();
    m.started("a".to_string(), StartOutcome::Failed("boom".to_string()));
    assert_eq!(
        m.register("a".to_string(), StartOutcome::Failed("no".to_string())),
        Err("MCP server 'a' failed to start: no".to_string())
    );
    assert_eq!(
        m.register("a".to_string(), StartOutcome::TimedOut),
        Err("MCP server 'a' timed out during connection".to_string())
    );
    assert_eq!(
        m.register("a".to_string(), StartOutcome::Ready(vec![tool("a", "x")])),
        Ok(vec!["x".to_string()])
    );
    m.register("b".to_string(), StartOutcome::Ready(vec![tool("b", "z")])).unwrap();
    assert!(m.call("a").is_ok());
    assert_eq!(m.tools().len(), 2);
    let only = m.tools_for(&vec!["b".to_string(), "q".to_string()]);
    assert_eq!(only.len(), 1);
    assert_eq!(only[0].tool_id(), "mcp__b__z");
    let infos = m.server_infos();
    assert_eq!(infos[0].text_field("name"), Some("a".to_string()));
    m.unregister("a");
    assert_eq!(m.call("a"), Err("MCP server 'a' not found".to_string()));
    assert!(matches!(m.status(&row("a", true)), McpServerStatus::Error { .. }));
}

#[test]
fn server_notifications_become_events() {
    let (method, params) = notification_event(&args("{\"method\":\"m\",\"params\":{\"b\":1}}"));
    assert_eq!(method, "m");
    assert_eq!(params, "{\"b\":1}");
    assert_eq!(notification_event(&args("{}")), ("unknown".to_string(), "null".to_string()));
}

#[test]
fn activated_servers_are_granted_once() {
    let t = ShowMcpTools { stack_id: None };
    assert_eq!(
        t.request(&args("{}")),
        Err("show_mcp_tools: `mcp_names` must be an array".to_string())
    );
    assert_eq!(
        t.request(&args("{\"mcp_names\":[1]}")),
        Err("show_mcp_tools: `mcp_names` is empty".to_string())
    );
    let names = t.request(&args("{\"mcp_names\":[\"gmail\",\"tavily\",\"gmail\"]}")).unwrap();
    let mut grants = vec!["drive".to_string()];
    grant_all(&mut grants, &names);
    assert_eq!(grants, vec!["drive".to_string(), "gmail".to_string(), "tavily".to_string()]);
    grant(&mut grants, "gmail");
    assert_eq!(grants.len(), 3);
    revoke_all(&mut grants);
    assert!(grants.is_empty());
    let two = vec!["gmail".to_string(), "tavily".to_string()];
    assert_eq!(
        t.reply(&two, &vec!["gmail".to_string()]),
        "MCP servers activated for this session: gmail ✓, tavily (registered but not yet running — tools will appear after reconnect). Their tools are available from the next tool-call round."
    );
    assert!(ShowMcpTools { stack_id: Some(4) }
        .reply(&two, &Vec::new())
        .starts_with("MCP servers activated for this stack 4: "));
    assert_eq!(
        t.describe(&args("{\"mcp_names\":[\"a\",\"b\"]}")),
        ("activate MCP [a, b]".to_string(), MAX_LABEL_SHORT)
    );
}

fn meta(name: &str, category: ToolCategory) -> ToolMeta {
    ToolMeta {
        name: name.to_string(),
        description: format!("{name}!"),
        category,
        sub_agents_only: false,
        root_agent_only: false,
        interactive_only: false,
    }
}

fn registry() -> ToolRegistry {
    let mut r = ToolRegistry::new();
    r.register(meta("restart", ToolCategory::Shell));
    r.register(ToolMeta { sub_agents_only: true, ..meta("report", ToolCategory::Subagent) });
    r.register(ToolMeta { root_agent_only: true, ..meta("set_secret", ToolCategory::Config) });
    r.register(ToolMeta { interactive_only: true, ..meta("ask", ToolCategory::Introspection) });
    r
}

#[test]
fn registered_tools_are_offered() {
    let mut r = registry();
    let root: Vec<&str> = r.openai_definitions().iter().map(|t| t.name.as_str()).collect();
    assert_eq!(root, vec!["restart", "set_secret", "ask"]);
    let sub: Vec<&str> =
        r.openai_definitions_sub_agents_only().iter().map(|t| t.name.as_str()).collect();
    assert_eq!(sub, vec!["report"]);
    assert_eq!(r.root_agent_only_names(), vec!["set_secret".to_string()]);
    assert_eq!(r.interactive_only_names(), vec!["ask".to_string()]);
    assert_eq!(r.category_of("restart"), Some(ToolCategory::Shell));
    assert_eq!(r.category_of("call_agent"), None);
    assert_eq!(r.describe_call("restart", "restart now"), "restart now");
    assert_eq!(r.describe_call("call_agent", "x"), "call_agent");
    assert_eq!(r.dispatch("restart").unwrap().description, "restart!");
    assert_eq!(r.dispatch("nope").err(), Some("Unknown tool: nope".to_string()));
    let names: Vec<String> = r.list_all().into_iter().map(|p| p.0).collect();
    assert_eq!(names, vec!["ask", "report", "restart", "set_secret"]);
    r.register(meta("restart", ToolCategory::Config));
    assert_eq!(r.list_all().len(), 4);
    assert_eq!(r.category_of("restart"), Some(ToolCategory::Config));
}

#[test]
fn the_catalog_lists_everything_by_name() {
    let r = registry();
    let mcp = vec![tool("gmail", "search")];
    let all = ToolCatalog::new(&r, &mcp).list_all();
    let names: Vec<&str> = all.built_in.iter().map(|t| t.name.as_str()).collect();
    assert_eq!(
        names,
        vec![
            "ask",
            "ask_user_clarification",
            "call_agent",
            "report",
            "restart",
            "set_secret",
            "update_scratchpad"
        ]
    );
    assert_eq!(all.built_in[2].category.as_deref(), Some("subagent"));
    assert_eq!(all.built_in[4].category.as_deref(), Some("shell"));
    assert_eq!(all.mcp[0].name, "mcp__gmail__search");
    assert_eq!(all.mcp[0].source, "mcp");
    assert_eq!(all.mcp[0].server.as_deref(), Some("gmail"));
    assert_eq!(category_str(ToolCategory::Filesystem), "filesystem");
    let listed = skald::api::approval::list_tools(all, &vec![row("gmail", true)]);
    assert!(listed.mcp_servers.get("gmail").is_some());
    assert!(listed.mcp_servers.get("drive").is_none());
}

#[test]
fn mcp_tool_names_lead_to_their_tool() {
    let id = tool("gmail", "search_all").tool_id();
    assert_eq!(id, "mcp__gmail__search_all");
    assert_eq!(mcp_server_from_tool_name(&id).as_deref(), Some("gmail"));
    assert_eq!(
        parse_mcp_tool_name(&id),
        Some(("gmail".to_string(), "search_all".to_string()))
    );
    assert_eq!(parse_mcp_tool_name("read_file"), None);
    assert_eq!(parse_mcp_tool_name("mcp__gmail"), None);
}
