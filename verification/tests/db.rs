use skald::cron::{
    job_context, job_label, last_assistant_message, next_fire_and_single, next_fires, next_run,
    next_run_after, plan_job, plan_with, report_run, Fires, CLOCK_SPREAD,
};
use skald::db::chat_history::{
    estimate_tokens, for_stack, for_stack_since, last_message_for_stack, row_to_message,
    stored_metadata, ChatMessage, MessageMetadata, MessageRow, Role,
};
use skald::db::llm_requests::cleanup;
use skald::db::scheduled_jobs::{list_due, ScheduledJob};
use skald::db::schema::{migrate_tables, stored_version};
use skald::db::tables::create_tables;

fn job(id: i64, next: Option<&str>) -> ScheduledJob {
    ScheduledJob {
        id,
        title: "Digest".to_string(),
        description: "d".to_string(),
        cron: "0 0 9 * * * *".to_string(),
        prompt: "p".to_string(),
        agent_id: "worker".to_string(),
        session_id: None,
        enabled: true,
        last_run_at: None,
        next_run_at: next.map(str::to_string),
        single_run: false,
        running_session_id: None,
        kind: "cron".to_string(),
        created_at: "c".to_string(),
    }
}

#[test]
fn schedules_fire_in_their_zone() {
    // 2024-01-01T00:00:00Z
    let now = 1_704_067_200;
    let f = next_fires("0 0 9 * * * *", Some("Europe/Rome"), now).unwrap();
    assert_eq!(f.first, Some(now + 8 * 3600));
    assert_eq!(f.second, Some(now + 32 * 3600));
    assert_eq!(next_fire_and_single(&f), Some((now + 8 * 3600, false)));
    assert!(next_fires("nonsense", Some("Europe/Rome"), now).is_none());
    let local = next_fires("0 0 9 * * * *", None, now).unwrap();
    assert!(local.first.unwrap() > now - CLOCK_SPREAD);
    assert!(local.first.unwrap() <= now + 2 * CLOCK_SPREAD);
    assert!(local.second.is_some());
    let past = next_fires("0 0 9 1 1 * 2020", None, now).unwrap();
    assert!(past.first.is_none() && past.second.is_none());
    assert!(next_fires("nonsense", None, now).is_none());
}

#[test]
fn jobs_are_planned() {
    let now = 1_704_067_200;
    let p = plan_job("0 0 9 * * * *", "cron", false, Some("UTC"), now).unwrap();
    assert_eq!(p.next_run_at.as_deref(), Some("2024-01-01T09:00:00+00:00"));
    assert!(!p.single_run);
    let once = plan_job("0 0 9 1 1 * 2025", "cron", false, Some("UTC"), now).unwrap();
    assert!(once.single_run);
    let e = plan_job("0 0 9 1 1 * 2020", "cron", false, Some("UTC"), now).unwrap_err();
    assert_eq!(e, "Cron expression '0 0 9 1 1 * 2020' has no upcoming fire times");
    let e = plan_job("x", "cron", false, Some("UTC"), now).unwrap_err();
    assert!(e.starts_with("Invalid cron expression: 'x'. Use 7-field format: "));
    let p = plan_with("", "immediate", false, None).unwrap();
    assert!(p.single_run && p.next_run_at.is_none());
    let mut j = job(1, None);
    assert!(next_run_after(&j, Some("UTC"), now).is_some());
    assert!(next_run_after(&j, None, now).is_some());
    j.single_run = true;
    assert_eq!(next_run_after(&j, Some("UTC"), now), None);
    assert_eq!(next_run_after(&j, None, now), None);
    assert_eq!(next_run(Some(Fires { first: None, second: None })), None);
}

#[test]
fn runs_are_reported() {
    let j = job(7, None);
    assert_eq!(job_label(&j), "CronJob: Digest");
    assert_eq!(
        job_context(&j, 1_704_067_260),
        "[Job context]\nJob ID: 7 — Digest\nTime: 2024-01-01 00:01 UTC"
    );
    let r = report_run(&j, 100, 350, None, None);
    assert_eq!((r.status.as_str(), r.duration_ms), ("completed", 250));
    assert_eq!(
        r.notice,
        "CronJob ID 7 (Digest) has completed with the following outcome: (no output)"
    );
    let r = report_run(&j, 0, 0, Some("x".to_string()), Some("boom".to_string()));
    assert_eq!(r.final_response, None);
    assert_eq!(
        r.notice,
        "CronJob ID 7 (Digest) has failed with the following error: boom (check the logs)"
    );
}

#[test]
fn due_jobs_come_in_order() {
    let mut running = job(3, Some("2024-01-01"));
    running.set_running(9);
    let mut off = job(4, Some("2024-01-01"));
    off.set_enabled(false, None);
    let jobs = vec![
        job(1, Some("2024-01-03")),
        job(2, Some("2024-01-02")),
        running,
        off,
        job(5, None),
        job(6, Some("2024-02-01")),
    ];
    let due: Vec<i64> = list_due(jobs, "2024-01-15").iter().map(|j| j.id).collect();
    assert_eq!(due, vec![2, 1]);
}

#[test]
fn jobs_that_ran_once_expire() {
    let mut j = job(1, Some("2024-01-01"));
    j.single_run = true;
    j.last_run_at = Some("2024-01-01".to_string());
    assert!(j.is_due("2024-02-01"));
    assert!(!j.is_expired("2024-02-01"));
    j.finish_run("2024-01-05".to_string(), None);
    assert!(!j.is_due("2024-02-01"));
    assert!(j.is_expired("2024-02-01"));
    assert!(!j.is_expired("2024-01-05"));
    let same: Vec<i64> = list_due(
        vec![job(3, Some("2024-01-02")), job(1, Some("2024-01-02")), job(2, Some("2024-01-01"))],
        "2024-01-15",
    )
    .iter()
    .map(|j| j.id)
    .collect();
    assert_eq!(same, vec![2, 3, 1]);
}

#[test]
fn finished_jobs_wait_or_stop() {
    let mut j = job(1, Some("a"));
    j.set_running(5);
    assert!(j.is_interrupted());
    j.finish_run("now".to_string(), Some("later".to_string()));
    assert!(!j.is_interrupted());
    assert_eq!(j.next_run_at.as_deref(), Some("later"));
    j.finish_run("now".to_string(), None);
    assert!(!j.enabled);
    j.set_enabled(true, Some("soon".to_string()));
    assert_eq!(j.next_run_at.as_deref(), Some("soon"));
}

fn message(id: i64, status: &str) -> ChatMessage {
    ChatMessage {
        id,
        role: Role::User,
        content: String::new(),
        status: status.to_string(),
        input_tokens: None,
        output_tokens: None,
        is_synthetic: false,
        reasoning_content: None,
        metadata: None,
        created_at: None,
    }
}

#[test]
fn a_run_ends_with_its_last_completed_answer() {
    let answer = |id: i64, status: &str, content: &str| {
        let mut m = message(id, status);
        m.role = Role::Assistant;
        m.content = content.to_string();
        m
    };
    assert_eq!(last_assistant_message(&vec![]), None);
    assert_eq!(last_assistant_message(&vec![message(1, "ok")]), None);
    assert_eq!(
        last_assistant_message(&vec![
            answer(1, "ok", "first"),
            answer(2, "ok", "second"),
            answer(3, "failed", "third"),
            message(4, "ok"),
        ])
        .as_deref(),
        Some("second")
    );
}

#[test]
fn failed_messages_are_left_out() {
    let all = || vec![message(1, "ok"), message(2, "failed"), message(3, "ok"), message(4, "failed")];
    let ids = |v: Vec<ChatMessage>| v.iter().map(|m| m.id).collect::<Vec<_>>();
    assert_eq!(ids(for_stack(all())), vec![1, 3]);
    assert_eq!(ids(for_stack_since(all(), 1)), vec![3]);
    assert_eq!(last_message_for_stack(all()).unwrap().id, 3);
    assert!(last_message_for_stack(Vec::new()).is_none());
}

#[test]
fn rows_become_messages() {
    let row = |role: &str| MessageRow {
        id: 1,
        role: role.to_string(),
        content: "c".to_string(),
        status: "ok".to_string(),
        input_tokens: None,
        output_tokens: None,
        is_synthetic: true,
        reasoning_content: None,
        metadata: None,
        created_at: None,
    };
    assert_eq!(row_to_message(row("agent")).unwrap().role, Role::Agent);
    assert_eq!(row_to_message(row("bot")).unwrap_err(), "Unknown role: bot");
    for r in [Role::User, Role::Assistant, Role::Agent] {
        assert_eq!(Role::from_str(r.as_str()), Ok(r));
    }
    let empty = MessageMetadata { attachments: Vec::new() };
    assert!(stored_metadata(Some(&empty)).is_none());
    assert_eq!(estimate_tokens(11), 2);
    assert_eq!(estimate_tokens(-11), 0);
    assert_eq!(cleanup(14), "-14 days");
}

#[test]
fn migrations_end_at_the_latest_version() {
    assert_eq!(stored_version(None), 0);
    assert_eq!(stored_version(Some("5")), 5);
    assert_eq!(stored_version(Some("x")), 0);
    assert!(!create_tables().is_empty());
    assert!(!migrate_tables(0).is_empty());
    assert!(migrate_tables(u32::MAX).is_empty());
    assert!(migrate_tables(0).len() > migrate_tables(3).len());
}
