//! Requests on scheduled jobs.
use vstd::prelude::*;

use crate::api::ApiError;
use crate::db::scheduled_jobs::{JobRunWithMeta, ScheduledJob};
use crate::json::{Json, JsonView};
use crate::numerals::{decimal, i64_text};

verus! {

/// The number of runs that are listed.
pub const LISTED_RUNS: i64 = 200;

/// A job as listed.
#[derive(Debug)]
pub struct JobResponse {
    pub id: i64,
    pub title: String,
    pub description: String,
    pub cron: String,
    pub prompt: String,
    pub agent_id: String,
    pub enabled: bool,
    pub single_run: bool,
    pub kind: String,
    pub last_run_at: Option<String>,
    pub next_run_at: Option<String>,
    pub created_at: String,
    pub run_context_id: Option<String>,
    pub running_session_id: Option<i64>,
    pub running_since: Option<String>,
}

/// A job as listed, with the context that its runs use and the time since
/// which one is in flight.
pub fn job_response(
    j: ScheduledJob,
    run_context_id: Option<String>,
    running_since: Option<String>,
) -> (r: JobResponse)
    ensures
        r == (JobResponse {
            id: j.id,
            title: j.title,
            description: j.description,
            cron: j.cron,
            prompt: j.prompt,
            agent_id: j.agent_id,
            enabled: j.enabled,
            single_run: j.single_run,
            kind: j.kind,
            last_run_at: j.last_run_at,
            next_run_at: j.next_run_at,
            created_at: j.created_at,
            run_context_id,
            running_session_id: j.running_session_id,
            running_since,
        }),
{
    JobResponse {
        id: j.id,
        title: j.title,
        description: j.description,
        cron: j.cron,
        prompt: j.prompt,
        agent_id: j.agent_id,
        enabled: j.enabled,
        single_run: j.single_run,
        kind: j.kind,
        last_run_at: j.last_run_at,
        next_run_at: j.next_run_at,
        created_at: j.created_at,
        run_context_id,
        running_session_id: j.running_session_id,
        running_since,
    }
}

/// The answer of a request on a job, where the job was or was not there.
pub fn found_job(id: i64, found: bool) -> (r: Result<(), ApiError>)
    ensures
        match r {
            Ok(_) => found,
            Err(e) => !found && e.is_not_found("job "@ + decimal(id as int) + " not found"@),
        },
{
    if found {
        Ok(())
    } else {
        let number: String = i64_text(id);
        let mut t: String = "job ".to_owned();
        t.append(number.as_str());
        t.append(" not found");
        Err(ApiError::not_found(t.as_str()))
    }
}

/// Whether a request enables or disables a job.
pub fn toggle(body: &Json) -> (r: Result<bool, ApiError>)
    ensures
        match body@.field("enabled"@).as_bool() {
            Some(b) => r == Ok::<bool, ApiError>(b),
            None => r matches Err(e) && e.is_bad_request("'enabled' boolean required"@),
        },
{
    match body.bool_field("enabled") {
        Some(b) => Ok(b),
        None => Err(ApiError::bad_request("'enabled' boolean required")),
    }
}

/// The context that the runs of a job are to use.
#[derive(Debug)]
pub struct SetRunContextBody {
    pub run_context_id: Option<String>,
}

/// A run as listed.
#[derive(Debug)]
pub struct JobRunResponse {
    pub id: i64,
    pub job_id: i64,
    pub job_title: Option<String>,
    pub agent_id: Option<String>,
    pub kind: Option<String>,
    pub session_id: Option<i64>,
    pub started_at: String,
    pub completed_at: Option<String>,
    pub duration_ms: Option<i64>,
    pub status: String,
    pub final_response: Option<String>,
    pub error: Option<String>,
    pub created_at: String,
}

pub fn job_run_response(r: JobRunWithMeta) -> (out: JobRunResponse)
    ensures
        out == (JobRunResponse {
            id: r.id,
            job_id: r.job_id,
            job_title: r.job_title,
            agent_id: r.agent_id,
            kind: r.kind,
            session_id: r.session_id,
            started_at: r.started_at,
            completed_at: r.completed_at,
            duration_ms: r.duration_ms,
            status: r.status,
            final_response: r.final_response,
            error: r.error,
            created_at: r.created_at,
        }),
{
    JobRunResponse {
        id: r.id,
        job_id: r.job_id,
        job_title: r.job_title,
        agent_id: r.agent_id,
        kind: r.kind,
        session_id: r.session_id,
        started_at: r.started_at,
        completed_at: r.completed_at,
        duration_ms: r.duration_ms,
        status: r.status,
        final_response: r.final_response,
        error: r.error,
        created_at: r.created_at,
    }
}

/// A job is shown as it is, with its context and since when it runs.
pub proof fn law_shown_jobs(j: ScheduledJob, context: Option<String>, since: Option<String>, r: JobResponse)
    requires
        call_ensures(job_response, (j, context, since), r),
    ensures
        r.id == j.id && r.title == j.title && r.description == j.description && r.cron == j.cron
            && r.prompt == j.prompt && r.agent_id == j.agent_id,
        r.enabled == j.enabled && r.single_run == j.single_run && r.kind == j.kind && r.last_run_at
            == j.last_run_at && r.next_run_at == j.next_run_at && r.created_at == j.created_at,
        r.run_context_id == context && r.running_session_id == j.running_session_id
            && r.running_since == since,
{
}

/// A job that is not there is told so; a switch needs to say which way.
pub proof fn law_job_errors(id: i64, found: bool, r: Result<(), ApiError>, body: &Json, s: Result<bool, ApiError>)
    requires
        call_ensures(found_job, (id, found), r),
        call_ensures(toggle, (body,), s),
    ensures
        r is Ok <==> found,
        r matches Err(e) ==> e.status == 404 && e.message@ == "job "@ + decimal(id as int)
            + " not found"@,
        s is Ok <==> body@.field("enabled"@) is Bool,
        s matches Ok(b) ==> body@.field("enabled"@) == JsonView::Bool(b),
        s matches Err(e) ==> e.status == 400 && e.message@ == "'enabled' boolean required"@,
{
}

} // verus!
