use skald::api::approval::{default_action, resolve_pending, ResolveBody, ResolvePath};
use skald::approval::manager::{ApprovalDecision, ApprovalManager, BypassScope};
use skald::approval::order::list_for_group;
use skald::approval::rules::{
    check_tool_visibility, first_rule_action, gate_call, gate_path, is_memory_path, is_tool_visible,
    mcp_server_from_tool_name, pattern_matches, rule_matches, ApprovalRule, GateCall, GateResult,
    NewApprovalRule, RuleAction,
};
use skald::approval::seeds::{
    seed_allow_all_default, seed_data_path_rules, seed_defaults, seed_secrets_deny_rules,
};
use skald::events::ServerEvent;
use skald::json::{parse_json, write_json};
use skald::run_context::check_tool_visibility as visible_action;
use skald::run_context::{
    create_context, create_group, default_context, default_group, delete_context, delete_group,
    duplicate_group, seed_rules, visibility_group, RunContextRow, ToolPermissionGroup,
};
use skald::tools::ToolCategory;

fn rule(tool: &str, path: Option<&str>, action: RuleAction) -> ApprovalRule {
    ApprovalRule {
        id: 1,
        agent_id: None,
        source: None,
        tool_pattern: tool.to_string(),
        path_pattern: path.map(str::to_string),
        action,
        note: None,
        priority: 100,
        group_id: Some("default".to_string()),
    }
}

fn call(tool: &str, path: &str) -> GateCall {
    GateCall {
        agent_id: "main".to_string(),
        source: "web".to_string(),
        tool_name: tool.to_string(),
        path: path.to_string(),
    }
}

#[test]
fn patterns_match_names_and_prefixes() {
    assert!(pattern_matches("read_file", "read_file"));
    assert!(!pattern_matches("read_file", "read_files"));
    assert!(pattern_matches("mcp__gmail__*", "mcp__gmail__search"));
    assert!(pattern_matches("*", ""));
    assert!(!pattern_matches("mcp__gmail__*", "mcp__drive__search"));
}

#[test]
fn action_names_read_back() {
    for a in [RuleAction::Require, RuleAction::Allow, RuleAction::Deny] {
        assert_eq!(RuleAction::from_str(a.as_str()), Ok(a));
    }
    assert!(RuleAction::from_str("maybe").is_err());
}

#[test]
fn the_first_matching_rule_wins() {
    let rules = vec![
        rule("write_file", Some("data/*"), RuleAction::Allow),
        rule("write_file", None, RuleAction::Require),
        rule("*", None, RuleAction::Allow),
    ];
    assert_eq!(first_rule_action(&rules, &call("write_file", "data/x")), Some(RuleAction::Allow));
    assert_eq!(first_rule_action(&rules, &call("write_file", "src/x")), Some(RuleAction::Require));
    assert_eq!(first_rule_action(&rules, &call("read_file", "src/x")), Some(RuleAction::Allow));
    assert_eq!(first_rule_action(&Vec::new(), &call("read_file", "")), None);
}

#[test]
fn rules_filter_by_agent_and_source() {
    let mut r = rule("*", None, RuleAction::Deny);
    r.agent_id = Some("coder".to_string());
    assert!(!rule_matches(&r, &call("x", "")));
    r.agent_id = Some("main".to_string());
    assert!(rule_matches(&r, &call("x", "")));
    r.source = Some("cron".to_string());
    assert!(!rule_matches(&r, &call("x", "")));
}

#[test]
fn denied_tools_are_invisible() {
    let rules = vec![rule("restart", None, RuleAction::Deny), rule("*", None, RuleAction::Require)];
    assert!(!is_tool_visible(&rules, "restart"));
    assert!(is_tool_visible(&rules, "read_file"));
    assert_eq!(check_tool_visibility(&rules, "restart"), Some(RuleAction::Deny));
    assert_eq!(check_tool_visibility(&Vec::new(), "restart"), None);
}

#[test]
fn mcp_tools_name_their_server() {
    assert_eq!(mcp_server_from_tool_name("mcp__gmail__search"), Some("gmail".to_string()));
    assert_eq!(mcp_server_from_tool_name("mcp__gmail"), None);
    assert_eq!(mcp_server_from_tool_name("read_file"), None);
}

#[test]
fn rejections_carry_the_trimmed_note() {
    assert_eq!(ApprovalDecision::rejection_message("  "), "User rejected this tool call.");
    assert_eq!(
        ApprovalDecision::rejection_message(" not now\n"),
        "User rejected this tool call. Reason: not now"
    );
}

#[test]
fn no_rule_means_a_human_is_asked() {
    let mut m = ApprovalManager::new();
    let none = Vec::new();
    let r = m.check(1, None, &call("read_file", "x"), Some(&none), 0);
    assert!(matches!(r, GateResult::Require));
}

#[test]
fn approvals_resolve_once() {
    let mut m = ApprovalManager::new();
    let (id, event) =
        m.register(7, 70, "execute_cmd", "{}", "main", "web", None, Some(ToolCategory::Shell), "now");
    assert!(matches!(event.event, ServerEvent::ApprovalRequested { tool_call_id: 70, .. }));
    assert_eq!(m.list_pending().len(), 1);
    assert_eq!(m.get_pending(id).unwrap().session_id, 7);
    let done = m.approve(id).unwrap();
    assert!(done.decision.is_approved());
    assert!(matches!(done.event.event, ServerEvent::ApprovalResolved { approved: true, .. }));
    assert!(m.approve(id).is_none());
    assert!(m.reject(id, String::new()).is_none());
}

#[test]
fn approvals_resolve_by_tool_call() {
    let mut m = ApprovalManager::new();
    m.register(7, 70, "execute_cmd", "{}", "main", "web", None, None, "now");
    assert!(m.resolve_for_tool_call(71, ApprovalDecision::Approved).is_none());
    let r = m
        .resolve_for_tool_call(70, ApprovalDecision::Rejected { note: "no".to_string() })
        .unwrap();
    assert!(!r.decision.is_approved());
    assert!(m.list_pending().is_empty());
}

#[test]
fn a_bypass_allows_what_was_required() {
    let mut m = ApprovalManager::new();
    let rules = vec![
        rule("restart", None, RuleAction::Deny),
        rule("*", None, RuleAction::Require),
    ];
    m.bypass_session_for(7, 1000, 500);
    let cmd = call("execute_cmd", "");
    assert!(matches!(m.check(7, None, &cmd, Some(&rules), 1200), GateResult::Allow));
    assert!(matches!(m.check(8, None, &cmd, Some(&rules), 1200), GateResult::Require));
    assert!(matches!(m.check(7, None, &call("restart", ""), Some(&rules), 1200), GateResult::Deny));
    assert!(matches!(m.check(7, None, &cmd, Some(&rules), 1500), GateResult::Require));
    m.bypass_session(7);
    assert!(matches!(m.check(7, None, &cmd, Some(&rules), u64::MAX), GateResult::Allow));
    m.clear_session_bypass(7);
    assert!(matches!(m.check(7, None, &cmd, Some(&rules), 0), GateResult::Require));
}

#[test]
fn a_bypass_covers_the_category_of_the_tool() {
    let mut m = ApprovalManager::new();
    let rules = vec![rule("*", None, RuleAction::Require)];
    let (id, _) =
        m.register(7, 70, "execute_cmd", "{}", "main", "web", None, Some(ToolCategory::Shell), "now");
    assert!(m.approve_with_bypass(id, Some(60), 0).is_some());
    assert!(matches!(m.bypasses[0].scope, BypassScope::Category(ToolCategory::Shell)));
    let cmd = call("execute_cmd", "");
    assert!(matches!(
        m.check(7, Some(ToolCategory::Shell), &cmd, Some(&rules), 59_999),
        GateResult::Allow
    ));
    assert!(matches!(
        m.check(7, Some(ToolCategory::Config), &cmd, Some(&rules), 59_999),
        GateResult::Require
    ));
    m.bypass_session_for_category(7, ToolCategory::Config, 0, None);
    assert!(matches!(
        m.check(7, Some(ToolCategory::Config), &cmd, Some(&rules), u64::MAX),
        GateResult::Allow
    ));
}

#[test]
fn cancelling_ends_approvals_and_bypasses() {
    let mut m = ApprovalManager::new();
    m.register(7, 70, "a", "{}", "main", "web", None, None, "now");
    m.register(8, 80, "b", "{}", "main", "web", None, None, "now");
    m.bypass_session(7);
    m.bypass_session_for_mcp(7, "gmail".to_string(), 0, None);
    m.cancel_for_session(7);
    assert_eq!(m.list_pending().len(), 1);
    assert!(m.bypasses.is_empty());
}

fn stored(r: NewApprovalRule) -> ApprovalRule {
    ApprovalRule {
        id: 0,
        agent_id: r.agent_id,
        source: r.source,
        tool_pattern: r.tool_pattern,
        path_pattern: r.path_pattern,
        action: r.action,
        note: r.note,
        priority: r.priority.unwrap_or(100),
        group_id: r.group_id,
    }
}

#[test]
fn a_fresh_policy_guards_writes_and_secrets() {
    let mut rules: Vec<ApprovalRule> = Vec::new();
    rules.extend(seed_defaults(0).into_iter().map(stored));
    rules.extend(seed_data_path_rules(0).into_iter().map(stored));
    rules.extend(seed_secrets_deny_rules(0).into_iter().map(stored));
    rules.extend(seed_allow_all_default(0).into_iter().map(stored));
    rules.sort_by_key(|r| r.priority);
    assert_eq!(
        first_rule_action(&rules, &call("read_file", "secrets/key")),
        Some(RuleAction::Deny)
    );
    assert_eq!(
        first_rule_action(&rules, &call("write_file", "data/notes.md")),
        Some(RuleAction::Allow)
    );
    assert_eq!(
        first_rule_action(&rules, &call("write_file", "src/main.rs")),
        Some(RuleAction::Require)
    );
    assert_eq!(first_rule_action(&rules, &call("list_items", "")), Some(RuleAction::Allow));
    let args = |path: &str| parse_json(&format!("{{\"path\":\"{path}\"}}")).unwrap();
    let seen = |path: &str, answers: &Vec<Option<String>>| {
        gate_call("main", "web", "read_file", &args(path), "/p", answers)
    };
    let detour = seen("docs/../secrets/x", &Vec::new());
    assert_eq!(detour.path, "secrets/x");
    assert_eq!(first_rule_action(&rules, &detour), Some(RuleAction::Deny));
    let link = seen("notes/x", &vec![None, Some("/p/secrets".to_string())]);
    assert_eq!(link.path, "secrets/x");
    assert_eq!(first_rule_action(&rules, &link), Some(RuleAction::Deny));
    let file = seen("/etc/passwd", &vec![Some("/etc/passwd".to_string())]);
    assert_eq!(file.path, "etc/passwd");
    let none = gate_call("a", "b", "c", &parse_json("{}").unwrap(), "/p", &Vec::new());
    assert_eq!((none.agent_id.as_str(), none.source.as_str()), ("a", "b"));
    assert_eq!((none.tool_name.as_str(), none.path.as_str()), ("c", ""));
    assert_eq!(gate_path(&args("q/r")), "q/r");
    assert!(seed_defaults(1).is_empty());
    assert!(seed_allow_all_default(1).is_none());
}

#[test]
fn memory_paths_are_recognised() {
    assert!(!is_memory_path(&call("execute_cmd", "data/memory/x.md")));
}

#[test]
fn api_rejections_pass_the_raw_note() {
    assert_eq!(default_action(), "approve");
    let (d, answer) = resolve_pending(
        &ResolvePath { request_id: 3 },
        ResolveBody { action: "reject".to_string(), note: " why ".to_string() },
    );
    assert!(matches!(d, ApprovalDecision::Rejected { ref note } if note == " why "));
    assert_eq!(write_json(&answer), "{\"action\":\"reject\",\"ok\":true,\"request_id\":3}");
    let (d, _) = resolve_pending(
        &ResolvePath { request_id: 3 },
        ResolveBody { action: default_action(), note: String::new() },
    );
    assert!(d.is_approved());
}

#[test]
fn the_default_group_is_reserved() {
    assert_eq!(
        create_context("default"),
        Err("cannot create a run_context with reserved id 'default'".to_string())
    );
    assert_eq!(
        delete_context("default"),
        Err("cannot delete the built-in 'default' run_context".to_string())
    );
    assert_eq!(
        create_group("default"),
        Err("cannot create a permission group with reserved id 'default'".to_string())
    );
    assert_eq!(
        delete_group("default"),
        Err("cannot delete the built-in 'default' permission group".to_string())
    );
    assert_eq!(create_context("a"), Ok(()));
    assert_eq!(delete_context("a"), Ok(()));
    assert_eq!(create_group("a"), Ok(()));
    assert_eq!(delete_group("a"), Ok(()));
    assert_eq!(default_group().name, "Default");
    assert_eq!(default_context().tool_group_id.as_deref(), Some("default"));
}

#[test]
fn a_copied_group_decides_alike() {
    let mut deny = rule("restart", None, RuleAction::Deny);
    deny.group_id = Some("strict".to_string());
    let other = rule("*", None, RuleAction::Allow);
    let group = Some(ToolPermissionGroup {
        id: "strict".to_string(),
        name: "Strict".to_string(),
        description: Some("d".to_string()),
    });
    let rules = vec![deny, other];
    let c = duplicate_group(&group, "strict", "copy", "Copy", &rules).unwrap();
    assert_eq!(c.group.description.as_deref(), Some("d"));
    assert_eq!(c.rules.len(), 1);
    assert_eq!(c.rules[0].group_id.as_deref(), Some("copy"));
    assert_eq!(first_rule_action(&c.rules, &call("restart", "")), Some(RuleAction::Deny));
    let all: Vec<ApprovalRule> = rules.iter().cloned().chain(c.rules).collect();
    for tool in ["restart", "read_file"] {
        assert_eq!(
            first_rule_action(&list_for_group(all.clone(), Some("copy")), &call(tool, "")),
            first_rule_action(&list_for_group(rules.clone(), Some("strict")), &call(tool, ""))
        );
    }
    assert_eq!(
        duplicate_group(&None, "gone", "copy", "Copy", &rules).unwrap_err(),
        "source group 'gone' not found"
    );
    assert_eq!(
        duplicate_group(&group, "strict", "default", "Copy", &rules).unwrap_err(),
        "cannot create a permission group with reserved id 'default'"
    );
}

#[test]
fn rules_without_a_group_move_to_the_default_one() {
    let mut old = rule("a", None, RuleAction::Allow);
    old.group_id = None;
    let mut rules = vec![old, rule("b", None, RuleAction::Allow)];
    assert_eq!(seed_rules(&mut rules), 1);
    assert_eq!(rules[0].group_id.as_deref(), Some("default"));
    assert_eq!(seed_rules(&mut rules), 0);
}

#[test]
fn contexts_fall_back_to_the_default_group() {
    assert_eq!(visibility_group(&None), "default");
    let mut c = RunContextRow {
        id: "p".to_string(),
        name: "P".to_string(),
        description: None,
        tool_group_id: None,
    };
    assert_eq!(visibility_group(&Some(c)), "default");
    c = default_context();
    c.tool_group_id = Some("strict".to_string());
    let c = Some(c);
    assert_eq!(visibility_group(&c), "strict");
    let mut deny = rule("restart", None, RuleAction::Deny);
    deny.group_id = Some("strict".to_string());
    let rules = || vec![rule("*", None, RuleAction::Allow), deny.clone()];
    assert_eq!(visible_action(&c, rules(), "restart"), Some(RuleAction::Deny));
    assert_eq!(visible_action(&c, rules(), "read_file"), Some(RuleAction::Allow));
    assert_eq!(visible_action(&None, rules(), "restart"), Some(RuleAction::Allow));
    assert_eq!(visible_action(&c, Vec::new(), "restart"), None);
    let fallback = rule("restart", None, RuleAction::Deny);
    assert_eq!(visible_action(&c, vec![fallback.clone()], "restart"), Some(RuleAction::Deny));
    let mut early = rule("*", None, RuleAction::Require);
    early.priority = fallback.priority - 1;
    assert_eq!(visible_action(&c, vec![fallback, early], "restart"), Some(RuleAction::Require));
}

#[test]
fn rules_of_a_group_come_first() {
    let with = |tool: &str, priority: i64, group: Option<&str>| {
        let mut r = rule(tool, None, RuleAction::Allow);
        r.priority = priority;
        r.group_id = group.map(str::to_string);
        r
    };
    let all = || {
        vec![
            with("a", 5, Some("default")),
            with("b", 9, Some("strict")),
            with("c", 1, Some("other")),
            with("d", 2, Some("strict")),
            with("e", 1, None),
            with("f", 5, None),
        ]
    };
    let names = |v: Vec<ApprovalRule>| {
        v.into_iter().map(|r| r.tool_pattern).collect::<Vec<_>>().join("")
    };
    assert_eq!(names(list_for_group(all(), Some("strict"))), "dbeaf");
    assert_eq!(names(list_for_group(all(), Some("default"))), "eaf");
    assert_eq!(names(list_for_group(all(), None)), "eaf");
}

#[test]
fn memory_may_always_be_written() {
    let mut m = ApprovalManager::new();
    let rules = vec![rule("*", None, RuleAction::Deny)];
    let r = m.check(1, None, &call("write_file", "memory/notes.md"), Some(&rules), 0);
    assert!(matches!(r, GateResult::Allow));
    let r = m.check(1, None, &call("write_file", "data/memory/notes.md"), Some(&rules), 0);
    assert!(matches!(r, GateResult::Deny));
    let r = m.check(1, None, &call("write_file", "x"), None, 0);
    assert!(matches!(r, GateResult::Allow));
}
