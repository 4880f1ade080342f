use skald::api::cron::{found_job, job_response, job_run_response, toggle};
use skald::api::dev::{
    get_debug_mode, list_llm_requests, set_debug_mode, DebugModeBody, LlmRequestsQuery,
};
use skald::api::files::{
    basename, compile_error_response, content_type_for, create_file, delete_file, get_file,
    is_latex, list_files, pdf_download_name, rename_file, save_file, set_attachment, walk, Body,
    CompileError, CreatePayload, FileOutcome, FileQuery, RenamePayload, SavePayload, WalkStep,
};
use skald::api::llm::{
    model_not_found, model_record, parse_provider, parse_strength, provider_not_found,
    provider_record, selector, ModelPayload, ProviderPayload,
};
use skald::api::run_context::{update_context, update_group};
use skald::api::sessions::{
    approved_response, build_debug_items, build_items, default_page, default_per_page,
    default_source, get_session_detail, is_nested, list_sessions, main_stack, messages_for_source,
    rejected_response, web_resolve_tool, ApprovedCall, CallData, ListSessionsQuery, MessageData,
    ResolveStep, ResolveToolBody, ResolveToolPath, SessionIdPath, SessionRow, StackData,
    StoredCall,
};
use skald::api::stats::{llm_stats, StatsQuery, StatsRange, SQL_DAILY_DATE, SQL_DAILY_HOUR};
use skald::api::transcribe_audio::{has_transcribe, transcribe_audio, Part};
use skald::api::uploads::{sanitize_filename, saved_attachment, unique_target};
use skald::api::ws::{
    command, compact_reply, context_reply, control, done, format_models_md, forwards, handler,
    invalid_message, is_cancel_msg, is_resume_msg, message_options, model_reply, no_cost_reply,
    resetmcp_reply, sethome_reply, unknown_reply, Command, Control, ModelCommandOutcome, ModelItem,
    WsParams, HELP_TEXT,
};
use skald::approval::manager::ApprovalDecision;
use skald::config::{LlmProvider, LlmStrength};
use skald::db::chat_history::{Attachment, ChatMessage, Role};
use skald::db::scheduled_jobs::{JobRunWithMeta, ScheduledJob};
use skald::events::{GlobalEvent, ServerEvent};
use skald::json::{parse_json, write_json, Json};
use skald::llm::manager::LlmManager;

#[test]
fn the_debug_mode_is_kept() {
    for enabled in [true, false] {
        let (stored, answer) = set_debug_mode(&DebugModeBody { enabled });
        assert_eq!(answer.enabled, enabled);
        assert_eq!(get_debug_mode(&Some(stored.to_string())).enabled, enabled);
    }
    assert!(!get_debug_mode(&None).enabled);
    assert!(!get_debug_mode(&Some("TRUE".to_string())).enabled);
}

#[test]
fn the_request_log_is_paged() {
    let q = |page| LlmRequestsQuery { agent_id: None, source: None, from: None, to: None, page };
    assert_eq!(q(None).window(), Some((1, 0)));
    assert_eq!(q(Some(-4)).window(), Some((1, 0)));
    assert_eq!(q(Some(3)).window(), Some((3, 40)));
    assert_eq!(q(Some(i64::MAX)).window(), None);
    assert_eq!(q(Some(i64::MAX / 20 + 1)).window(), Some((i64::MAX / 20 + 1, i64::MAX / 20 * 20)));
    assert_eq!(list_llm_requests(Vec::new(), 7, 2).page_size, 20);
}

#[test]
fn statistics_cover_a_week_by_default() {
    assert_eq!(llm_stats(&StatsQuery { range: None }), ("-7 days", SQL_DAILY_DATE));
    assert_eq!(
        llm_stats(&StatsQuery { range: Some(StatsRange::Hour) }),
        ("-60 minutes", SQL_DAILY_HOUR)
    );
    assert_eq!(llm_stats(&StatsQuery { range: Some(StatsRange::Day) }).0, "-24 hours");
    assert_eq!(llm_stats(&StatsQuery { range: Some(StatsRange::Month) }).0, "-30 days");
    assert!(matches!(StatsRange::default(), StatsRange::Week));
}

#[test]
fn provider_and_strength_names_read_back() {
    for p in [
        LlmProvider::LmStudio,
        LlmProvider::Ollama,
        LlmProvider::OpenAi,
        LlmProvider::OpenRouter,
        LlmProvider::Anthropic,
        LlmProvider::DeepSeek,
        LlmProvider::ElevenLabs,
    ] {
        assert_eq!(parse_provider(p.as_str()).unwrap(), p);
    }
    for s in [
        LlmStrength::VeryLow,
        LlmStrength::Low,
        LlmStrength::Average,
        LlmStrength::High,
        LlmStrength::VeryHigh,
    ] {
        assert_eq!(parse_strength(s.as_str()).unwrap(), s);
    }
    let e = parse_provider("open_router").unwrap_err();
    assert_eq!((e.status, e.message.as_str()), (400, "unknown provider type 'open_router'"));
    assert_eq!(parse_strength("mid").unwrap_err().message, "unknown strength 'mid'");
}

fn model_payload(name: &str, strength: Option<&str>) -> ModelPayload {
    ModelPayload {
        provider_id: 1,
        model_id: "gpt".to_string(),
        name: name.to_string(),
        strength: strength.map(str::to_string),
        scope: None,
        is_default: None,
        priority: None,
        extra_params: None,
        context_length: None,
        max_output_tokens: None,
        knowledge_cutoff: None,
        capabilities: Some(vec!["vision".to_string()]),
    }
}

#[test]
fn records_are_made_of_payloads() {
    let r = model_record(model_payload("", Some("high"))).unwrap();
    assert_eq!(r.name, "gpt");
    assert_eq!(r.priority, 100);
    assert!(!r.is_default);
    assert_eq!(r.strength, Some(LlmStrength::High));
    assert_eq!(r.capabilities, vec!["vision"]);
    assert!(r.scope.is_empty());
    assert_eq!(model_record(model_payload("mine", None)).unwrap().name, "mine");
    assert_eq!(model_record(model_payload("", Some("x"))).unwrap_err().status, 400);
    let p = |t: &str| ProviderPayload {
        name: "n".to_string(),
        provider: t.to_string(),
        api_key: None,
        base_url: None,
        description: None,
    };
    assert_eq!(provider_record(p("ollama")).unwrap().provider, "ollama");
    assert_eq!(provider_record(p("x")).unwrap_err().message, "unknown provider type 'x'");
    assert_eq!(provider_not_found(3).message, "provider 3 not found");
    assert_eq!(model_not_found(3).message, "model 3 not found");
    let s = selector(&LlmManager::new());
    assert_eq!(s.models, vec!["auto"]);
}

fn part(name: Option<&str>, content_type: Option<&str>, bytes: &[u8]) -> Part {
    Part {
        name: name.map(str::to_string),
        content_type: content_type.map(str::to_string),
        bytes: bytes.to_vec(),
    }
}

#[test]
fn audio_is_found_among_the_parts() {
    let e = transcribe_audio(false, Vec::new()).unwrap_err();
    assert_eq!(e.message, "no transcription model configured");
    let e = transcribe_audio(true, vec![part(Some("x"), None, b"a")]).unwrap_err();
    assert_eq!(e.message, "missing 'audio' field in multipart body");
    let e = transcribe_audio(true, vec![part(Some("audio"), None, b"")]).unwrap_err();
    assert_eq!(e.message, "audio field is empty");
    let (bytes, format) = transcribe_audio(
        true,
        vec![
            part(Some("audio"), Some("audio/webm;codecs=opus"), b"one"),
            part(None, Some("audio/wav"), b"x"),
            part(Some("audio"), Some("audio/ogg"), b"two"),
        ],
    )
    .unwrap();
    assert_eq!((bytes, format.as_str()), (b"two".to_vec(), "ogg"));
    let (_, format) = transcribe_audio(true, vec![part(Some("audio"), Some("audio"), b"x")]).unwrap();
    assert_eq!(format, "webm");
    assert_eq!((has_transcribe(true), has_transcribe(false)), (204, 404));
}

fn some_job() -> ScheduledJob {
    ScheduledJob {
        id: 4,
        title: "t".to_string(),
        description: "d".to_string(),
        cron: "c".to_string(),
        prompt: "p".to_string(),
        agent_id: "a".to_string(),
        session_id: None,
        enabled: true,
        last_run_at: None,
        next_run_at: None,
        single_run: true,
        running_session_id: Some(9),
        kind: "cron".to_string(),
        created_at: "now".to_string(),
    }
}

#[test]
fn jobs_are_answered() {
    let r = job_response(some_job(), Some("rc".to_string()), None);
    assert_eq!(r.running_session_id, Some(9));
    assert_eq!(r.run_context_id.as_deref(), Some("rc"));
    assert!(found_job(4, true).is_ok());
    let e = found_job(4, false).unwrap_err();
    assert_eq!((e.status, e.message.as_str()), (404, "job 4 not found"));
    assert!(toggle(&parse_json("{\"enabled\":true}").unwrap()).unwrap());
    assert_eq!(
        toggle(&parse_json("{\"enabled\":1}").unwrap()).unwrap_err().message,
        "'enabled' boolean required"
    );
    let run = JobRunWithMeta {
        id: 1,
        job_id: 4,
        job_title: Some("t".to_string()),
        agent_id: None,
        kind: None,
        session_id: None,
        started_at: "s".to_string(),
        completed_at: None,
        duration_ms: Some(5),
        status: "completed".to_string(),
        final_response: None,
        error: None,
        created_at: "c".to_string(),
    };
    assert_eq!(job_run_response(run).job_title.as_deref(), Some("t"));
    assert_eq!(update_group(false).unwrap_err().message, "permission group not found");
    assert_eq!(update_context(false).unwrap_err().message, "run_context not found");
    assert!(update_group(true).is_ok() && update_context(true).is_ok());
}

#[test]
fn files_are_listed_by_path() {
    assert_eq!(walk(".git", true, false), WalkStep::Skip);
    assert_eq!(walk("target", true, false), WalkStep::Skip);
    assert_eq!(walk("target", false, true), WalkStep::Take);
    assert_eq!(walk("src", true, false), WalkStep::Enter);
    assert_eq!(walk("socket", false, false), WalkStep::Skip);
    let out = list_files(vec!["b/x.rs".to_string(), "a.md".to_string(), ".env".to_string()]);
    let shown: Vec<(&str, &str)> =
        out.iter().map(|e| (e.path.as_str(), e.name.as_str())).collect();
    assert_eq!(shown, vec![(".env", ".env"), ("a.md", "a"), ("b/x.rs", "x")]);
}

#[test]
fn files_have_types_and_names() {
    assert_eq!(content_type_for("a/B.PNG"), "image/png");
    assert_eq!(content_type_for("a.jpeg"), "image/jpeg");
    assert_eq!(content_type_for("a.svg"), "image/svg+xml");
    assert_eq!(content_type_for("a.htm"), "text/html; charset=utf-8");
    assert_eq!(content_type_for("a.latex"), "application/x-tex");
    assert_eq!(content_type_for("Makefile"), "text/plain; charset=utf-8");
    assert!(is_latex("x.TeX"));
    assert!(!is_latex("tex"));
    assert_eq!(basename("docs/report.tex"), "report.tex");
    assert_eq!(basename("/"), "/");
    assert_eq!(pdf_download_name("docs/report.tex"), "report.pdf");
    assert_eq!(pdf_download_name(".."), "output.pdf");
    assert_eq!(
        set_attachment("a\"b\\c é.txt").as_deref(),
        Some("attachment; filename=\"a_b_c _.txt\"")
    );
    assert_eq!(set_attachment("a\tb").as_deref(), Some("attachment; filename=\"a\tb\""));
    assert_eq!(set_attachment("a\nb"), None);
    assert_eq!(set_attachment("a\u{7f}"), None);
}

#[test]
fn files_are_answered() {
    let q = |compile_latex, force_download| FileQuery {
        path: "d/r.tex".to_string(),
        compile_latex,
        force_download,
    };
    assert!(q(true, false).compiles());
    assert!(!q(false, false).compiles());
    let r = get_file(&q(true, true), FileOutcome::Compiled(vec![1]));
    assert_eq!(r.content_type, "application/pdf");
    assert_eq!(r.disposition.as_deref(), Some("attachment; filename=\"r.pdf\""));
    let r = get_file(&q(false, true), FileOutcome::Read(vec![1]));
    assert_eq!(r.content_type, "application/x-tex");
    assert_eq!(r.disposition.as_deref(), Some("attachment; filename=\"r.tex\""));
    assert!(matches!(r.body, Body::Bytes(ref b) if b == &vec![1]));
    assert!(get_file(&q(false, false), FileOutcome::Read(vec![])).disposition.is_none());
    let r = get_file(&q(false, false), FileOutcome::NotRead);
    assert_eq!(r.status, 404);
    assert!(matches!(r.body, Body::Text(ref t) if t == "File not found: d/r.tex"));
    assert_eq!(get_file(&q(false, false), FileOutcome::Invalid).status, 400);
    assert_eq!(compile_error_response(CompileError::ToolMissing).status, 501);
    assert_eq!(compile_error_response(CompileError::Timeout).status, 504);
    let r = compile_error_response(CompileError::Failed { log: "bad".to_string() });
    assert!(r.status == 422 && matches!(r.body, Body::Text(ref t) if t == "bad"));
    let r = compile_error_response(CompileError::Io("disk".to_string()));
    assert!(
        r.status == 500
            && matches!(r.body, Body::Text(ref t) if t == "I/O error during compilation: disk")
    );
}

#[test]
fn files_are_edited_only_where_they_may_be() {
    let c = CreatePayload { path: "p".to_string() };
    assert_eq!(create_file(&c, false).unwrap(), 201);
    assert_eq!(create_file(&c, true).unwrap_err().message, "File già esistente: p");
    let s = SavePayload { path: "p".to_string(), content: String::new() };
    assert_eq!(save_file(&s, true).unwrap(), 204);
    assert_eq!(save_file(&s, false).unwrap_err().message, "File not found: p");
    let r = RenamePayload { old_path: "o".to_string(), new_path: "n".to_string() };
    assert_eq!(rename_file(&r, true, false).unwrap(), 204);
    assert_eq!(rename_file(&r, false, true).unwrap_err().message, "File non trovato: o");
    let e = rename_file(&r, true, true).unwrap_err();
    assert_eq!((e.status, e.message.as_str()), (500, "File già esistente: n"));
    let q = FileQuery { path: "p".to_string(), compile_latex: false, force_download: false };
    assert_eq!(delete_file(&q, true).unwrap(), 204);
    assert_eq!(delete_file(&q, false).unwrap_err().message, "File non trovato: p");
}

#[test]
fn upload_names_are_plain() {
    assert_eq!(sanitize_filename("../../etc/passwd"), "passwd");
    assert_eq!(sanitize_filename("a/.."), "file");
    assert_eq!(sanitize_filename("  "), "file");
    assert_eq!(sanitize_filename(""), "file");
    assert_eq!(sanitize_filename("dir/ . "), "file");
    assert_eq!(sanitize_filename(" photo.png "), "photo.png");
    let taken = |names: &[&str]| -> Vec<String> { names.iter().map(|n| n.to_string()).collect() };
    assert_eq!(unique_target("a.tar.gz", &taken(&[])), "a.tar.gz");
    assert_eq!(unique_target("a.tar.gz", &taken(&["a.tar_1.gz"])), "a.tar.gz");
    assert_eq!(unique_target("a.tar.gz", &taken(&["a.tar_1.gz", "a.tar.gz"])), "a.tar_2.gz");
    assert_eq!(unique_target("a.tar.gz", &taken(&["a.tar_2.gz", "a.tar.gz"])), "a.tar_1.gz");
    assert_eq!(unique_target("README", &taken(&["README", "README"])), "README_1");
    assert_eq!(unique_target(".env", &taken(&[".env"])), ".env_1");
    let a = saved_attachment(7, "x.png".to_string(), Some("image/png".to_string()), 12);
    assert_eq!(a.path, "data/uploads/7/x.png");
    assert_eq!(a.filesize, Some(12));
}

fn message(id: i64, role: Role, content: &str) -> ChatMessage {
    ChatMessage {
        id,
        role,
        content: content.to_string(),
        status: "ok".to_string(),
        input_tokens: None,
        output_tokens: None,
        is_synthetic: false,
        reasoning_content: None,
        metadata: None,
        created_at: None,
    }
}

fn call(id: i64, status: &str, result: Option<&str>) -> CallData {
    CallData {
        id,
        name: "call_agent".to_string(),
        arguments: Some("{\"agent_id\":\"x\"}".to_string()),
        status: status.to_string(),
        result: result.map(str::to_string),
        label_short: "s".to_string(),
        label_full: "f".to_string(),
    }
}

fn session_stacks() -> Vec<StackData> {
    let mut hidden = message(1, Role::User, "tick");
    hidden.is_synthetic = true;
    let mut thinking = message(3, Role::Assistant, "  ");
    thinking.reasoning_content = Some("hm".to_string());
    vec![
        StackData {
            id: 10,
            agent_id: "main".to_string(),
            depth: 0,
            parent_tool_call_id: None,
            messages: vec![
                MessageData { message: hidden, calls: Vec::new() },
                MessageData { message: message(2, Role::User, "hi"), calls: Vec::new() },
                MessageData {
                    message: thinking,
                    calls: vec![call(50, "done", Some("ok")), call(51, "running", Some("x"))],
                },
                MessageData { message: message(4, Role::Agent, "no"), calls: Vec::new() },
                MessageData { message: message(5, Role::Assistant, "bye"), calls: Vec::new() },
            ],
        },
        StackData {
            id: 11,
            agent_id: "coder".to_string(),
            depth: 1,
            parent_tool_call_id: Some(50),
            messages: vec![MessageData {
                message: message(6, Role::Assistant, "done it"),
                calls: Vec::new(),
            }],
        },
    ]
}

fn kinds(items: &[Json]) -> Vec<String> {
    items.iter().map(|j| j.text_field("kind").unwrap()).collect()
}

#[test]
fn conversations_are_shown_with_their_agents() {
    let stacks = session_stacks();
    assert!(is_nested(&stacks));
    assert_eq!(main_stack(&stacks), Some(0));
    let items = build_items(&stacks, 0);
    assert_eq!(
        kinds(&items),
        vec!["user", "tool", "agent", "assistant", "agent_end", "tool", "assistant"]
    );
    assert_eq!(
        write_json(&items[1]),
        "{\"arguments\":{\"agent_id\":\"x\"},\"error\":null,\"kind\":\"tool\",\"label_full\":\"f\",\"label_short\":\"s\",\"name\":\"call_agent\",\"result\":\"ok\",\"status\":\"done\",\"tool_call_id\":50}"
    );
    assert_eq!(items[5].text_field("error"), Some("Interrupted.".to_string()));
    assert_eq!(items[5].text_field("status"), Some("error".to_string()));
    assert_eq!(items[2].i64_field("stack_id"), Some(11));
    let debug = build_debug_items(&stacks, 0);
    assert_eq!(
        kinds(&debug),
        vec![
            "user",
            "user",
            "thinking",
            "tool",
            "agent",
            "assistant",
            "agent_end",
            "tool",
            "assistant"
        ]
    );
    assert_eq!(debug[0].bool_field("is_synthetic"), Some(true));
    assert_eq!(debug[2].text_field("reasoning"), Some("hm".to_string()));
    assert_eq!(messages_for_source(&stacks).len(), 7);
    assert!(messages_for_source(&Vec::new()).is_empty());
}

#[test]
fn failed_calls_keep_their_error() {
    let mut stacks = session_stacks();
    stacks[0].messages[2].calls[1] = call(51, "failed", Some("no such file"));
    let items = build_items(&stacks, 0);
    assert_eq!(items[5].text_field("error"), Some("no such file".to_string()));
    stacks[0].messages[2].calls[1] = call(51, "pending", Some("x"));
    let items = build_items(&stacks, 0);
    assert_eq!(items[5].text_field("status"), Some("pending".to_string()));
    assert_eq!(items[5].text_field("result"), None);
}

#[test]
fn frames_that_contain_themselves_are_found() {
    let mut stacks = session_stacks();
    stacks[1].depth = 0;
    assert!(!is_nested(&stacks));
}

fn session_row() -> SessionRow {
    SessionRow {
        id: 3,
        source: "web".to_string(),
        agent_id: "main".to_string(),
        is_ephemeral: false,
        is_interactive: true,
        created_at: None,
        message_count: 2,
        last_message_at: None,
    }
}

#[test]
fn sessions_are_detailed() {
    let path = SessionIdPath { id: 3 };
    let e = get_session_detail(&path, &None, &Vec::new()).unwrap_err();
    assert_eq!((e.status, e.message.as_str()), (404, "session 3 not found"));
    let j = get_session_detail(&path, &Some(session_row()), &Vec::new()).unwrap();
    assert_eq!(
        write_json(&j),
        "{\"messages\":[],\"session\":{\"agent_id\":\"main\",\"created_at\":null,\"id\":3,\"source\":\"web\"}}"
    );
    let j = get_session_detail(&path, &Some(session_row()), &session_stacks()).unwrap();
    assert_eq!(j.get("session").unwrap().bool_field("is_interactive"), Some(true));
    assert!(j.get("messages").unwrap().item(8).is_some());
}

#[test]
fn sessions_are_paged() {
    let q = |page, per_page| ListSessionsQuery { source: None, page, per_page };
    assert_eq!(q(default_page(), default_per_page()).window(), Some((1, 20, 0)));
    assert_eq!(q(0, 0).window(), Some((1, 1, 0)));
    assert_eq!(q(3, 500).window(), Some((3, 100, 200)));
    assert_eq!(q(i64::MAX, 2).window(), None);
    assert_eq!(default_source(), "web");
    let page = list_sessions(&vec![session_row()], 1, 1, 20);
    assert_eq!(page.i64_field("total"), Some(1));
    assert_eq!(
        page.get("items").unwrap().item(0).unwrap().i64_field("message_count"),
        Some(2)
    );
}

#[test]
fn pending_calls_are_resolved() {
    let path = ResolveToolPath { tool_call_id: 8 };
    let body = |action: &str, note: &str| ResolveToolBody {
        action: action.to_string(),
        note: note.to_string(),
    };
    let stored = |name: &str, status: &str| {
        Some(StoredCall { id: 8, name: name.to_string(), status: status.to_string() })
    };
    let err = |s, c: &Option<StoredCall>| {
        web_resolve_tool(s, c, &path, body("approve", "")).unwrap_err().message
    };
    assert_eq!(err(None, &None), "no active web session");
    assert_eq!(err(Some(1), &None), "tool_call_id 8 not found in current web session");
    assert_eq!(
        err(Some(1), &stored("x", "done")),
        "tool_call 8 is not pending (status: done)"
    );
    let step = web_resolve_tool(Some(1), &stored("x", "pending"), &path, body("reject", " no "));
    match step.unwrap() {
        ResolveStep::Reject(ApprovalDecision::Rejected { note }, text) => {
            assert_eq!(note, " no ");
            assert_eq!(text, "User rejected this tool call. Reason: no");
            let r = rejected_response(8, text);
            assert_eq!(r.status, "failed");
        }
        _ => panic!("not rejected"),
    }
    let step = web_resolve_tool(Some(1), &stored("restart", "pending"), &path, body("approve", ""));
    assert!(matches!(step.unwrap(), ResolveStep::Restart(t) if t == "Riavvio avviato."));
    let step = web_resolve_tool(Some(1), &stored("x", "pending"), &path, body("approve", ""));
    assert!(matches!(step.unwrap(), ResolveStep::Approve));
    assert_eq!(approved_response(8, ApprovedCall::Live).unwrap().status, "running");
    let r = approved_response(8, ApprovedCall::Returned("r".to_string())).unwrap();
    assert_eq!((r.status.as_str(), r.result.as_deref()), ("done", Some("r")));
    let e = approved_response(8, ApprovedCall::Failed("f".to_string())).unwrap_err();
    assert_eq!((e.status, e.message.as_str()), (500, "f"));
}

#[test]
fn control_messages_are_read() {
    assert!(is_cancel_msg("{\"type\":\"cancel\"}"));
    assert!(!is_cancel_msg("cancel"));
    assert!(is_resume_msg("{\"type\":\"resume\"}"));
    assert!(matches!(control("{\"type\":\"resume\"}"), Some(Control::Resume)));
    assert!(matches!(control("{\"type\":\"cancel\"}"), Some(Control::Cancel)));
    assert!(matches!(
        control("{\"type\":\"approve_tool\",\"request_id\":4}"),
        Some(Control::Approve(4))
    ));
    assert!(matches!(
        control("{\"type\":\"approve_write\",\"request_id\":4,\"bypass_secs\":0}"),
        Some(Control::ApproveWithBypass(4, None))
    ));
    assert!(matches!(
        control("{\"type\":\"approve_write\",\"request_id\":4,\"bypass_secs\":60}"),
        Some(Control::ApproveWithBypass(4, Some(60)))
    ));
    assert!(matches!(
        control("{\"type\":\"reject_tool\",\"request_id\":4,\"note\":\"n\"}"),
        Some(Control::Reject(4, n)) if n == "n"
    ));
    assert!(matches!(
        control("{\"type\":\"answer_question\",\"request_id\":4,\"answer\":\"a\"}"),
        Some(Control::Answer(4, a)) if a == "a"
    ));
    assert!(matches!(
        control("{\"type\":\"data\",\"stream\":\"location\",\"payload\":{\"is_live\":false}}"),
        Some(Control::Data(Some(s), false)) if s == "location"
    ));
    assert!(matches!(control("{\"type\":\"data\"}"), Some(Control::Data(None, true))));
    assert!(matches!(
        control("{\"type\":\"select_client\",\"client\":\"auto\"}"),
        Some(Control::Select(None))
    ));
    assert!(matches!(
        control("{\"type\":\"select_client\",\"client\":\"gpt\"}"),
        Some(Control::Select(Some(c))) if c == "gpt"
    ));
    assert!(control("{\"type\":\"approve_tool\"}").is_none());
    assert!(control("{\"content\":\"hi\"}").is_none());
    assert!(control("hi").is_none());
}

#[test]
fn commands_are_never_forwarded() {
    assert!(matches!(command(" /sethome\n"), Command::SetHome));
    assert!(matches!(command("/clear"), Command::Clear));
    assert!(matches!(command("/new "), Command::Clear));
    assert!(matches!(command("/help"), Command::Help));
    assert!(matches!(command("/context"), Command::Context));
    assert!(matches!(command("/cost"), Command::Cost));
    assert!(matches!(command("/compact"), Command::Compact));
    assert!(matches!(command("/resetmcp"), Command::ResetMcp));
    assert!(matches!(command("/models"), Command::Models));
    assert!(matches!(command("/model  2 "), Command::Model(a) if a == "2"));
    assert!(matches!(command("/model"), Command::Model(a) if a.is_empty()));
    assert!(matches!(command("/what is this"), Command::Unknown(w) if w == "/what"));
    assert!(matches!(command("hello /help"), Command::Chat));
    assert_eq!(
        unknown_reply("/what"),
        format!("Unknown command: /what\n\n{HELP_TEXT}")
    );
    assert!(HELP_TEXT.starts_with("**Available commands**\n\n**/clear** — start"));
    assert!(HELP_TEXT.ends_with("\n**/help** — this message"));
}

#[test]
fn commands_are_answered() {
    assert_eq!(handler(WsParams { source: None }), "web");
    assert_eq!(context_reply(Some(12), None), "↑12 tok · ↓? tok");
    assert_eq!(no_cost_reply(), "💰 Nessun costo registrato per questa sessione.");
    assert_eq!(compact_reply(true), "✅ Contesto compattato.");
    assert!(compact_reply(false).starts_with("⏩ Compattazione saltata"));
    assert_eq!(resetmcp_reply(), "✅ MCP tools removed from the session.");
    assert!(sethome_reply(&Ok(())).starts_with("🏠 Web impostato"));
    assert_eq!(sethome_reply(&Err("e".to_string())), "⚠️ Errore: e");
    assert_eq!(
        model_reply(&ModelCommandOutcome::Chosen("gpt".to_string())),
        "✅ Model set: **gpt**"
    );
    assert_eq!(model_reply(&ModelCommandOutcome::Cleared), "✅ Model reset to **auto**.");
    assert_eq!(model_reply(&ModelCommandOutcome::Error("x".to_string())), "⚠️ x");
    assert!(matches!(
        invalid_message("bad"),
        ServerEvent::Error { message } if message == "invalid message: bad"
    ));
    assert!(matches!(
        done("c".to_string()),
        ServerEvent::Done { message_id: 0, stack_id: 0, content, .. } if content == "c"
    ));
    let items = vec![
        ModelItem { number: 1, name: "auto".to_string(), is_current: true },
        ModelItem { number: 12, name: "gpt".to_string(), is_current: false },
    ];
    assert_eq!(
        format_models_md(&items),
        "**Available models**\n\n● ` 1`  auto\n○ `12`  gpt\n\nUse `/model N`, `/model name`, or `/model auto`."
    );
}

#[test]
fn chat_messages_carry_attachments() {
    let a = Attachment {
        path: "p".to_string(),
        name: "n".to_string(),
        mimetype: None,
        filesize: None,
    };
    let o = message_options(vec![a], Some("gpt".to_string()));
    assert_eq!(o.metadata.unwrap().attachments.len(), 1);
    assert!(o.extra_system_context.unwrap().starts_with("You are responding in a web chat"));
    assert!(message_options(Vec::new(), None).metadata.is_none());
}

#[test]
fn events_go_to_their_source() {
    let e = |source: Option<&str>, event| GlobalEvent {
        source: source.map(str::to_string),
        session_id: None,
        event,
    };
    let err = || ServerEvent::Error { message: String::new() };
    assert!(forwards(&e(Some("web"), err()), "web"));
    assert!(!forwards(&e(Some("talk"), err()), "web"));
    assert!(!forwards(&e(None, err()), "web"));
    let resolved = ServerEvent::ApprovalResolved { request_id: 1, tool_call_id: 2, approved: true };
    assert!(forwards(&e(Some("talk"), resolved), "web"));
}
