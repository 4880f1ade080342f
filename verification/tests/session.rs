use skald::approval::manager::ApprovalDecision;
use skald::approval::rules::{ApprovalRule, GateResult, RuleAction};
use skald::config::DatetimeConfig;
use skald::db::chat_history::Role;
use skald::events::ServerEvent;
use skald::json::{parse_json, write_json, Json};
use skald::session::agents::{
    agent_started, call_agent_depth, call_agent_request, call_agent_target, clarification_request,
    dispatch_call_agent, explicit_client, preview, root_tool_names, scratchpad_update,
    sub_agent_tool_names, AgentMeta,
};
use skald::session::context::{
    dynamic_tail, maybe_hide_tool_result, render_scratchpad, ContextInput, HistoryEntry,
    MessageBuilder, OutMessage, ToolRow,
};
use skald::session::dispatch::{
    dispatch_target, effective_args, find_name, working_dir_patch, DispatchTarget,
};
use skald::session::message::{finish_message, is_orphaned, merge_dynamic, TurnContext};
use skald::session::prompt::{
    date_line, datetime_line, render_mcp_list, resolve_memory_path, round_secs, static_prompt,
    LocalTime, MemoryFile, StaticParts,
};
use skald::session::resume::{
    cascade, child_done, needs_model, root_ending, CascadeStep, Frame, PendingCall, ResumeOutcome,
    ResumeQueue, ResumeStep, ResumeTarget, SettleStep,
};
use skald::session::summary::summarize_tool_result;
use skald::session::turn::{
    announces_thinking, first_line, is_retriable_llm_error, needs_gate_check, CallStep,
    FailureStep, GateStep, Phase, RoundStep, RunStep, ToolRun, Turn, TurnOutcome,
};
use skald::session::wire::{build_messages, message_json};

fn strings(v: &[&str]) -> Vec<String> {
    v.iter().map(|s| s.to_string()).collect()
}

#[test]
fn a_turn_ends_with_an_answer() {
    let mut t = Turn::new("gpt".to_string(), 3, false);
    assert!(matches!(t.begin_round(false), RoundStep::CallModel));
    t.call_succeeded();
    t.calls_saved(strings(&["read_file"]));
    assert!(matches!(t.begin_call(false), CallStep::Record));
    assert!(matches!(t.gated(GateResult::Allow), GateStep::Run));
    assert!(matches!(
        t.ran(ToolRun::Done("text".to_string()), "{}".to_string(), false),
        RunStep::Complete { file_changed: false }
    ));
    assert!(matches!(t.begin_call(false), CallStep::RoundOver));
    assert!(matches!(t.begin_round(false), RoundStep::CallModel));
    t.call_succeeded();
    match t.answer_saved("bye".to_string(), 5, Some(1), Some(2), false) {
        TurnOutcome::Final { content, tool_calls, .. } => {
            assert_eq!(content, "bye");
            assert_eq!(tool_calls.len(), 1);
            assert_eq!(tool_calls[0].name, "read_file");
        }
        _ => panic!("no answer"),
    }
}

#[test]
fn a_turn_uses_up_its_rounds() {
    let mut t = Turn::new("gpt".to_string(), 0, false);
    assert!(matches!(t.begin_round(false), RoundStep::Exhausted));
    let mut t = Turn::new("gpt".to_string(), 1, false);
    assert!(matches!(t.begin_round(true), RoundStep::Cancelled));
}

#[test]
fn a_failed_model_is_replaced() {
    let mut t = Turn::new("gpt".to_string(), 1, false);
    t.begin_round(false);
    assert!(matches!(t.call_failed("503 overloaded\ntry later"), FailureStep::SelectAnother));
    assert!(matches!(
        t.model_selected("other".to_string(), "503 overloaded\ntry later"),
        ServerEvent::ModelFallback { from, to, reason }
            if from == "gpt" && to == "other" && reason == "503 overloaded"
    ));
    assert_eq!(t.tried, strings(&["gpt", "other"]));
    assert!(matches!(
        t.call_failed("HTTP 401"),
        FailureStep::GiveUp(ServerEvent::LlmFailed { tried, last_error })
            if tried == strings(&["gpt", "other"]) && last_error == "HTTP 401"
    ));
    let mut alone = Turn::new("gpt".to_string(), 1, false);
    alone.begin_round(false);
    assert!(matches!(alone.call_failed("503 overloaded"), FailureStep::SelectAnother));
    assert!(matches!(
        alone.no_model_selected("503 overloaded"),
        ServerEvent::LlmFailed { tried, last_error }
            if tried == strings(&["gpt"]) && last_error == "503 overloaded"
    ));
    assert_eq!(alone.phase, Phase::Ended);
    assert!(is_retriable_llm_error("timeout"));
    assert!(!is_retriable_llm_error("status 404"));
}

#[test]
fn rejected_calls_fail_with_the_canonical_text() {
    let mut t = Turn::new("gpt".to_string(), 1, false);
    t.begin_round(false);
    t.call_succeeded();
    t.calls_saved(strings(&["execute_cmd"]));
    t.begin_call(false);
    assert!(matches!(t.gated(GateResult::Require), GateStep::AskHuman));
    match t.decided(Some(ApprovalDecision::Rejected { note: " no ".to_string() })) {
        GateStep::Fail(text) => {
            assert_eq!(text, "User rejected this tool call. Reason: no");
        }
        _ => panic!("not failed"),
    }
}

#[test]
fn texts_of_a_turn_are_shortened() {
    assert_eq!(first_line("a\nb"), "a");
    assert!(needs_gate_check("execute_cmd", false));
    assert!(needs_gate_check("execute_cmd", true));
    assert!(!needs_gate_check("write_file", true));
    assert!(needs_gate_check("write_file", false));
    assert!(announces_thinking("x", None));
    assert_eq!(preview("short"), "short");
    assert_eq!(preview(&"x".repeat(5000)), format!("{}…", "x".repeat(500)));
    assert_eq!(preview(&format!("x{}", "é".repeat(300))), format!("x{}…", "é".repeat(249)));
}

#[test]
fn pending_calls_are_taken_up_again() {
    let call = |id, name: &str| PendingCall { id, name: name.to_string() };
    let mut q = ResumeQueue::new(vec![call(1, "read_file")]);
    assert!(matches!(q.begin_call(), ResumeStep::Gate));
    assert!(matches!(q.gated(GateResult::Require), GateStep::AskHuman));
    assert!(matches!(q.decided(Some(ApprovalDecision::Approved)), GateStep::Run));
    assert!(matches!(q.target(&Vec::new()), ResumeTarget::Registry));
    assert!(matches!(q.ran(true), SettleStep::Complete));
    assert!(matches!(q.begin_call(), ResumeStep::Finished { had_pending: true }));
    let mut q = ResumeQueue::new(Vec::new());
    assert!(matches!(q.begin_call(), ResumeStep::Finished { had_pending: false }));
    assert!(needs_model(true, None));
    assert!(needs_model(false, Some((Role::Assistant, true))));
    assert!(!needs_model(false, Some((Role::Assistant, false))));
}

#[test]
fn a_finished_child_answers_its_call() {
    let child = Frame { id: 2, agent_id: "coder".to_string(), parent_tool_call_id: Some(9) };
    let done = || ResumeOutcome::Final {
        content: "ok".to_string(),
        message_id: 1,
        input_tokens: None,
        output_tokens: None,
        truncated: false,
    };
    match cascade(done(), &child) {
        CascadeStep::Propagate { tool_call_id, result } => {
            assert_eq!(tool_call_id, 9);
            assert_eq!(result.text, "ok");
            assert!(!result.is_error);
            let (settled, over) = child_done(9, &result, &child, "main");
            assert!(matches!(settled, ServerEvent::ToolDone { tool_call_id: 9, result } if result == "ok"));
            assert!(matches!(
                over,
                ServerEvent::AgentDone { stack_id: 2, parent_agent_id, result_preview, .. }
                    if parent_agent_id == "main" && result_preview == "ok"
            ));
        }
        _ => panic!("not propagated"),
    }
    assert!(matches!(
        agent_started(2, 9, "coder", "main", 1, "do it"),
        ServerEvent::AgentStart { stack_id: 2, parent_tool_call_id: 9, agent_id, depth: 1, prompt_preview, .. }
            if agent_id == "coder" && prompt_preview == "do it"
    ));
    let events = root_ending(done(), 1);
    assert!(matches!(&events[0], ServerEvent::Done { content, .. } if content == "ok"));
    assert!(matches!(cascade(ResumeOutcome::WaitingChild, &child), CascadeStep::Defer));
}

#[test]
fn relative_paths_are_taken_from_the_working_directory() {
    let args = parse_json("{\"path\":\"a.md\"}").unwrap();
    let p = working_dir_patch("read_file", &args, Some("/w"));
    assert_eq!(p.path.as_deref(), Some("/w/a.md"));
    assert_eq!(p.workdir, None);
    assert_eq!(working_dir_patch("read_file", &args, None).path, None);
    let cmd = working_dir_patch("execute_cmd", &parse_json("{}").unwrap(), Some("/w"));
    assert_eq!(cmd.workdir.as_deref(), Some("/w"));
    let set = parse_json("{\"workdir\":null,\"path\":\"/abs\"}").unwrap();
    let cmd = working_dir_patch("execute_cmd", &set, Some("/w"));
    assert_eq!((cmd.workdir, cmd.path), (None, None));
}

#[test]
fn shown_memory_paths_lead_back() {
    let m = resolve_memory_path("$WD/notes/a.md", "/w", "/srv");
    assert_eq!((m.absolute.as_str(), m.shown.as_str()), ("/w/notes/a.md", "notes/a.md"));
    let back = parse_json(&format!("{{\"path\":\"{}\"}}", m.shown)).unwrap();
    assert_eq!(working_dir_patch("edit_file", &back, Some("/w")).path, Some(m.absolute));
    let m = resolve_memory_path("data/b.md", "/w", "/srv");
    assert_eq!((m.absolute.as_str(), m.shown.as_str()), ("/srv/data/b.md", "/srv/data/b.md"));
}

#[test]
fn calls_go_to_their_target() {
    let none: Vec<String> = Vec::new();
    let args = parse_json("{}").unwrap();
    let to = |name: &str, interface: &Vec<String>| {
        dispatch_target(name, &args, interface, &none, &none)
    };
    assert!(matches!(to("restart", &none), DispatchTarget::Restart));
    assert!(matches!(to("run_subtask", &none), DispatchTarget::SubAgent));
    assert!(matches!(to("execute_cmd", &none), DispatchTarget::ExecuteCmd));
    assert!(matches!(to("x", &strings(&["y", "x"])), DispatchTarget::Interface(1)));
    assert!(matches!(to("x", &none), DispatchTarget::Registry));
    assert_eq!(find_name(&strings(&["a", "b", "a"]), "a"), Some(0));
}

#[test]
fn agents_are_called_with_a_prompt() {
    let q = call_agent_request(
        &parse_json("{\"agent_id\":\"coder\",\"prompt\":\"p\"}").unwrap(),
        "main",
    )
    .unwrap();
    assert_eq!((q.target.as_str(), q.prompt.as_str()), ("coder", "p"));
    assert!(call_agent_request(&parse_json("{}").unwrap(), "main").is_err());
    assert!(call_agent_target("coder", None, false).is_ok());
    assert!(call_agent_target("tic", None, true).is_err());
    assert_eq!(call_agent_depth(Some(0)), Ok(1));
    assert_eq!(explicit_client(None, Some("c".to_string())).as_deref(), Some("c"));
    let u = scratchpad_update(&parse_json("{\"key\":\"k\",\"value\":\"v\"}").unwrap());
    assert_eq!((u.key.as_str(), u.value.as_str()), ("k", "v"));
    let c = clarification_request(
        &parse_json("{\"question\":\"q\",\"suggested_answers\":[\"a\",1]}").unwrap(),
    );
    assert_eq!(c.question, "q");
    assert_eq!(c.suggested_answers, strings(&["a"]));
}

#[test]
fn denied_tools_are_not_offered() {
    let deny = ApprovalRule {
        id: 1,
        agent_id: None,
        source: None,
        tool_pattern: "restart".to_string(),
        path_pattern: None,
        action: RuleAction::Deny,
        note: None,
        priority: 1,
        group_id: None,
    };
    let rules = vec![deny];
    let names = root_tool_names(&strings(&["restart", "read_file"]), true, None, &rules);
    assert!(names.contains(&"read_file".to_string()));
    assert!(!names.contains(&"restart".to_string()));
    assert!(names.contains(&"call_agent".to_string()));
    let sub = sub_agent_tool_names(&names, &strings(&["report", "restart"]), &rules);
    assert!(sub.contains(&"report".to_string()));
    assert!(!sub.contains(&"restart".to_string()));
}

fn entry(role: Role, content: &str) -> HistoryEntry {
    HistoryEntry {
        role,
        content: content.to_string(),
        attachments: None,
        reasoning: None,
        calls: Vec::new(),
    }
}

fn input(history: Vec<HistoryEntry>) -> ContextInput {
    ContextInput {
        static_content: "S".to_string(),
        cache_hints: false,
        scratchpad: Vec::new(),
        summary_prefix: String::new(),
        summary: None,
        history,
        extra_system_dynamic: None,
        datetime_line: None,
        tail_reminder: None,
    }
}

#[test]
fn the_static_prefix_comes_first() {
    let b = MessageBuilder {
        max_history_messages: 10,
        max_tool_result_chars: None,
        compacted: false,
    };
    let out = b.build(&input(vec![
        entry(Role::User, "a"),
        entry(Role::User, "b"),
        entry(Role::Assistant, "c"),
    ]));
    assert!(matches!(&out[0], OutMessage::System { content, .. } if content == "S"));
    assert!(matches!(&out[1], OutMessage::User { content } if content.contains("a") && content.contains("b")));
    assert!(matches!(&out[2], OutMessage::Assistant { content, .. } if content == "c"));
    assert!(render_scratchpad(&vec![("k".to_string(), "v".to_string())]).contains("k"));
    assert_eq!(dynamic_tail(&None, &None), None);
}

fn same_json(j: &Json, expected: &str) {
    assert_eq!(write_json(j), write_json(&parse_json(expected).unwrap()));
}

#[test]
fn messages_are_sent_as_json() {
    let b = MessageBuilder {
        max_history_messages: 10,
        max_tool_result_chars: None,
        compacted: false,
    };
    let mut answer = entry(Role::Assistant, "c");
    answer.reasoning = Some("why".to_string());
    answer.calls = vec![ToolRow {
        id: 7,
        name: "read_file".to_string(),
        arguments: None,
        status: "done".to_string(),
        result: Some("text".to_string()),
    }];
    let mut i = input(vec![entry(Role::User, "a"), answer]);
    let out = build_messages(&b, &i);
    same_json(&out[0], r#"{"role":"system","content":"S"}"#);
    same_json(&out[1], r#"{"role":"user","content":"a"}"#);
    same_json(
        &out[2],
        r#"{"role":"assistant","content":"c","tool_calls":[{"id":"tc_7","type":"function","function":{"name":"read_file","arguments":"{}"}}],"reasoning_content":"why","reasoning":"why"}"#,
    );
    same_json(&out[3], r#"{"role":"tool","tool_call_id":"tc_7","content":"text"}"#);
    i.cache_hints = true;
    let out = build_messages(&b, &i);
    same_json(
        &out[0],
        r#"{"role":"system","content":[{"type":"text","text":"S","cache_control":{"type":"ephemeral"}}]}"#,
    );
    same_json(
        &message_json(&OutMessage::Assistant {
            content: "x".to_string(),
            calls: vec![],
            reasoning: None,
        }),
        r#"{"role":"assistant","content":"x"}"#,
    );
}

#[test]
fn long_results_of_earlier_turns_are_summarised() {
    let row = |result: &str| ToolRow {
        id: 1,
        name: "read_file".to_string(),
        arguments: Some("{\"path\":\"src/main.rs\"}".to_string()),
        status: "done".to_string(),
        result: Some(result.to_string()),
    };
    let long = "x".repeat(3200);
    assert_eq!(
        maybe_hide_tool_result(&row(&long), true, Some(100)),
        "[read_file] read src/main.rs (3,200 chars)"
    );
    assert_eq!(maybe_hide_tool_result(&row(&long), false, Some(100)), long);
    assert_eq!(maybe_hide_tool_result(&row(&long), true, None), long);
    assert_eq!(maybe_hide_tool_result(&row("ééé"), true, Some(3)), "ééé");
}

#[test]
fn results_are_summarised_by_tool() {
    let s = |tool: &str, args: &str, result: &str| {
        summarize_tool_result(tool, Some(args), result)
    };
    assert_eq!(
        s("execute_cmd", "{\"command\":\"cargo build\"}", "exit: 0\na\nb"),
        "[execute_cmd] ran `cargo build` → exit 0, 3 lines output"
    );
    assert_eq!(
        s("write_file", "{\"path\":\"agents/foo/AGENT.md\"}", "ok"),
        "[write_file] wrote to agents/foo/AGENT.md"
    );
    assert_eq!(s("edit_file", "{}", "ok"), "[edit_file] edited ?");
    assert_eq!(s("glob", "{\"pattern\":\"*.rs\"}", "ab"), "[glob] *.rs (2 chars)");
    assert_eq!(
        s("toggle_item", "{\"kind\":\"mcp\",\"id\":\"g\",\"enabled\":true}", ""),
        "[toggle_item] mcp 'g' → enabled"
    );
    assert_eq!(
        s("read_notification", "{}", "[\"a\",\"b\"]"),
        "[read_notification] 2 notification(s)"
    );
    assert_eq!(s("read_notification", "{}", "[1]"), "[read_notification] 0 notification(s)");
    assert_eq!(s("call_agent", "{\"agent_id\":\"c\"}", "é"), "[call_agent] → c (1 chars result)");
    assert_eq!(s("mcp__g__x", "{}", "abc"), "[mcp__g__x] (3 chars result)");
    assert_eq!(s("other", "{\"b\":\"2\",\"a\":\"1\"}", "abc"), "[other] a=1 (3 chars result)");
    let long = format!("{{\"command\":\"{}\"}}", "y".repeat(81));
    assert!(s("execute_cmd", &long, "").contains(&format!("`{}…`", "y".repeat(77))));
}

#[test]
fn summaries_have_one_line() {
    assert_eq!(
        summarize_tool_result("execute_cmd", Some(r#"{"command":"a\nb"}"#), "exit: 0\nx"),
        "[execute_cmd] ran `a b` → exit 0, 2 lines output"
    );
    assert_eq!(
        summarize_tool_result("write_file", Some(r#"{"path":"a\n\nb"}"#), ""),
        "[write_file] wrote to a  b"
    );
    assert_eq!(
        summarize_tool_result("od\nd", Some(r#"{"k\ney":"v\n"}"#), "r"),
        "[od d] k ey=v  (1 chars result)"
    );
}

#[test]
fn summaries_are_cut_between_characters() {
    let cmd = format!(r#"{{"command":"{}"}}"#, "é".repeat(50));
    assert_eq!(
        summarize_tool_result("execute_cmd", Some(&cmd), ""),
        format!("[execute_cmd] ran `{}…` → exit ?, 0 lines output", "é".repeat(38))
    );
    let arg = format!(r#"{{"a":"x{}"}}"#, "é".repeat(30));
    assert_eq!(
        summarize_tool_result("other", Some(&arg), ""),
        format!("[other] a=x{} (0 chars result)", "é".repeat(19))
    );
}

#[test]
fn prompts_are_put_together() {
    let p = StaticParts {
        prompt: "Hi __NAME__\n__MCP_LIST__".to_string(),
        memory: vec![MemoryFile { path: "m.md".to_string(), content: None }],
        skills: None,
        extra: Some("X".to_string()),
        mcp_list: "L".to_string(),
        substitutions: vec![("NAME".to_string(), "Bo".to_string())],
    };
    let t = static_prompt(&p);
    assert!(t.starts_with("Hi Bo\nL\n\n---\n"));
    assert!(t.contains("<memory_file path=\"m.md\">\n(file not created yet)\n</memory_file>\n"));
    assert!(t.ends_with("\n\n---\nX"));
    let list = render_mcp_list(
        strings(&["b", "a", "b"]),
        &strings(&["b"]),
        &vec![("a".to_string(), Some("desc".to_string()))],
    );
    assert!(list.starts_with("## MCP servers\n"));
    assert!(list.contains("| `a` | desc |\n"));
    assert!(list.contains("- `b`\n"));
    assert_eq!(render_mcp_list(Vec::new(), &Vec::new(), &Vec::new()), "");
}

#[test]
fn times_are_rounded_down() {
    assert_eq!(round_secs(3_599, Some(10)), 3_000);
    assert_eq!(round_secs(3_599, None), 3_599);
    assert_eq!(round_secs(round_secs(12_345, Some(7)), Some(7)), round_secs(12_345, Some(7)));
    let cfg = DatetimeConfig {
        enabled: true,
        round_minutes: Some(10),
        timezone: Some("Europe/Rome".to_string()),
    };
    let local = LocalTime { at: None, now: "now".to_string() };
    let line = datetime_line(&cfg, 1_700_000_123, None, &local, "Linux", "/w").unwrap();
    assert!(line.contains("2023-11-14T23:10:00+01:00"));
    assert!(line.contains("Europe/Rome"));
    assert!(date_line("T", Some("UTC")).contains("T"));
    let off = DatetimeConfig { enabled: false, ..cfg };
    assert!(datetime_line(&off, 0, None, &local, "Linux", "/w").is_none());
}

#[test]
fn messages_end_with_their_events() {
    assert_eq!(
        merge_dynamic(Some("m".to_string()), Some("f".to_string())).as_deref(),
        Some("m\n\nf")
    );
    assert_eq!(merge_dynamic(None, None), None);
    assert!(is_orphaned(Some(Role::User)));
    assert!(!is_orphaned(Some(Role::Assistant)));
    assert!(!is_orphaned(None));
    let cx = || TurnContext {
        session_id: 1,
        stack_id: 2,
        user_message_id: 3,
        user_content: "hi".to_string(),
        is_synthetic: false,
        is_interactive: true,
        is_ephemeral: false,
        max_tool_rounds: 5,
    };
    let end = finish_message(
        cx(),
        TurnOutcome::Final {
            content: "bye".to_string(),
            message_id: 4,
            input_tokens: Some(7),
            output_tokens: None,
            truncated: false,
            tool_calls: Vec::new(),
        },
    );
    assert_eq!(end.last_input_tokens, Some(7));
    let (user, answer) = end.result.unwrap();
    assert_eq!((user.content.as_str(), answer.content.as_str()), ("hi", "bye"));
    assert!(finish_message(cx(), TurnOutcome::Exhausted).result.is_err());
}

#[test]
fn calls_run_with_their_effective_arguments() {
    let run = |name: &str, args: &str, wd: Option<&str>| {
        effective_args(name, &parse_json(args).unwrap(), wd).map(|j| write_json(&j))
    };
    assert_eq!(
        run("read_file", "{\"path\":\"a\",\"n\":[1,{\"k\":null}]}", Some("/w")).unwrap(),
        "{\"n\":[1,{\"k\":null}],\"path\":\"/w/a\"}"
    );
    assert_eq!(
        run("execute_cmd", "{\"command\":\"ls\"}", Some("/w")).unwrap(),
        "{\"command\":\"ls\",\"workdir\":\"/w\"}"
    );
    assert_eq!(run("execute_cmd", "null", Some("/w")).unwrap(), "{\"workdir\":\"/w\"}");
    assert_eq!(run("execute_cmd", "[]", Some("/w")), None);
    assert_eq!(run("execute_cmd", "[]", None).unwrap(), "[]");
}

#[test]
fn sub_agents_are_planned() {
    let args = parse_json("{\"agent_id\":\"coder\",\"prompt\":\"p\"}").unwrap();
    let meta = |system| Ok(AgentMeta { is_system_agent: system, client: Some("c".to_string()) });
    let p = dispatch_call_agent(&args, "main", meta(false), Some(1)).unwrap();
    assert_eq!((p.target.as_str(), p.depth, p.client.as_deref()), ("coder", 2, Some("c")));
    let err = |a: &str, parent: &str, m, d| {
        dispatch_call_agent(&parse_json(a).unwrap(), parent, m, d).unwrap_err()
    };
    let ok = "{\"agent_id\":\"coder\",\"prompt\":\"p\"}";
    assert_eq!(
        err("{}", "main", meta(false), Some(0)),
        "call_agent: missing required argument `agent_id`"
    );
    assert_eq!(
        err("{\"agent_id\":\"coder\"}", "main", meta(false), Some(0)),
        "call_agent: missing required argument `prompt`"
    );
    assert_eq!(
        err(ok, "coder", meta(false), Some(0)),
        "call_agent: an agent cannot call itself (`coder`)"
    );
    assert_eq!(
        err("{\"agent_id\":\"main\",\"prompt\":\"p\"}", "coder", meta(false), Some(0)),
        "call_agent: the `main` agent is the root entry point and cannot be invoked as a sub-agent"
    );
    assert_eq!(
        err(ok, "main", Err("no file".to_string()), Some(0)),
        "call_agent: agent `coder` not found: no file"
    );
    assert_eq!(
        err(ok, "main", meta(true), Some(0)),
        "call_agent: agent `coder` is a system agent and cannot be invoked via call_agent"
    );
    assert_eq!(err(ok, "main", meta(false), None), "call_agent: parent stack frame not found");
    assert_eq!(
        err(ok, "main", meta(false), Some(5)),
        "call_agent: maximum agent depth (5) exceeded — refusing to recurse further"
    );
}
