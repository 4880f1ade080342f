//! Scheduled tasks: when they fire, and what their runs leave behind.
use vstd::prelude::*;

use crate::db::chat_history::{ChatMessage, Role};
use crate::db::scheduled_jobs::ScheduledJob;
use crate::numerals::{decimal, i64_text};
use crate::text::{opt_text, str_eq};

verus! {

/// The times from which on no schedule is looked up.
pub const LATEST: i64 = 8_000_000_000_000;

/// Whether `cron` accepts an expression.
pub uninterp spec fn cron_accepts(expression: Seq<char>) -> bool;

/// The first two times, in seconds, at which `cron` says an expression fires
/// after a time in a zone of `chrono_tz`; `None` where the expression is not
/// accepted or the zone not known.
pub uninterp spec fn fires_of(expression: Seq<char>, zone: Seq<char>, now: int) -> Option<
    (Option<int>, Option<int>),
>;

/// What `chrono` writes for a time in UTC according to RFC 3339; the epoch
/// stands for a time out of its range.
pub uninterp spec fn rfc3339_of(secs: int) -> Seq<char>;

/// What `chrono` writes for a time in UTC as `%Y-%m-%d %H:%M`; the epoch stands
/// for a time out of its range.
pub uninterp spec fn minute_of(secs: int) -> Seq<char>;

/// Seconds between two looks at the due jobs.
pub const TICK_SECS: u64 = 30;

/// Seconds between the start and the first removal of expired jobs.
pub const FIRST_CLEANUP_SECS: u64 = 15;

/// Seconds between two removals of expired jobs.
pub const CLEANUP_SECS: u64 = 3600;

/// How long an expired job is kept, relative to now.
pub const EXPIRY: &'static str = "-7 days";

/// The first two times at which a schedule fires.
#[derive(Debug, Clone, Copy)]
pub struct Fires {
    pub first: Option<i64>,
    pub second: Option<i64>,
}

impl Fires {
    pub open spec fn times(self) -> (Option<int>, Option<int>) {
        (
            match self.first {
                Some(t) => Some(t as int),
                None => None,
            },
            match self.second {
                Some(t) => Some(t as int),
                None => None,
            },
        )
    }
}

pub open spec fn opt_times(f: Option<Fires>) -> Option<(Option<int>, Option<int>)> {
    match f {
        Some(x) => Some(x.times()),
        None => None,
    }
}

/// `Schedule::from_str` and `Schedule::after` in a zone of `chrono_tz`, whose
/// rules are compiled in: the times depend on the expression, the zone and the
/// time alone.
#[verifier::external_body]
fn zone_fires(expression: &str, zone: &str, now: i64) -> (r: Option<Fires>)
    requires
        0 <= now < LATEST,
    ensures
        opt_times(r) == fires_of(expression@, zone@, now as int),
{
    let schedule = expression.parse::<cron::Schedule>().ok()?;
    let tz = zone.parse::<chrono_tz::Tz>().ok()?;
    let from = chrono::TimeZone::timestamp_opt(&tz, now, 0).single()?;
    let mut times = schedule.after(&from).map(|t| t.timestamp());
    Some(Fires { first: times.next(), second: times.next() })
}

/// The longest that two clocks can be apart: an offset from UTC is less than a
/// day in either direction.
pub const CLOCK_SPREAD: i64 = 172_800;

/// Whether times can be those at which an expression fires after now in the
/// zone of the system: there are any exactly where the expression is accepted,
/// a second comes only with a first, and the first is after now by the clock
/// of the zone.
pub open spec fn may_fire(
    fires: Option<(Option<int>, Option<int>)>,
    expression: Seq<char>,
    now: int,
) -> bool {
    &&& fires is Some == cron_accepts(expression)
    &&& fires matches Some((first, second)) ==> {
        &&& second is Some ==> first is Some
        &&& first matches Some(t) ==> t > now - CLOCK_SPREAD
    }
}

/// The same in the zone of the system, which the result depends on too: the
/// schedule goes by the local clock, so that a time is after now on that clock
/// but may lie before it where the clock was set back in between.
/// What the times are beyond that is not said.
#[verifier::external_body]
fn local_fires(expression: &str, now: i64) -> (r: Option<Fires>)
    requires
        0 <= now < LATEST,
    ensures
        r is Some == cron_accepts(expression@),
        r matches Some(f) ==> f.second is Some ==> f.first is Some,
        r matches Some(f) ==> f.first matches Some(t) ==> t > now - CLOCK_SPREAD,
{
    let schedule = expression.parse::<cron::Schedule>().ok()?;
    let from = chrono::TimeZone::timestamp_opt(&chrono::Local, now, 0).single()?;
    let mut times = schedule.after(&from).map(|t| t.timestamp());
    Some(Fires { first: times.next(), second: times.next() })
}

/// `DateTime::to_rfc3339` in UTC.
#[verifier::external_body]
fn rfc3339(secs: i64) -> (r: String)
    ensures
        r@ == rfc3339_of(secs as int),
{
    chrono::DateTime::from_timestamp(secs, 0).unwrap_or_default().to_rfc3339()
}

/// `DateTime::format` in UTC.
#[verifier::external_body]
fn minute_text(secs: i64) -> (r: String)
    ensures
        r@ == minute_of(secs as int),
{
    chrono::DateTime::from_timestamp(secs, 0).unwrap_or_default().format("%Y-%m-%d %H:%M").to_string()
}

/// The times at which an expression fires after now, in a zone or, without
/// one, in that of the system.
pub fn next_fires(expression: &str, zone: Option<&str>, now: i64) -> (r: Option<Fires>)
    requires
        0 <= now < LATEST,
    ensures
        match zone {
            Some(z) => opt_times(r) == fires_of(expression@, z@, now as int),
            None => may_fire(opt_times(r), expression@, now as int),
        },
{
    match zone {
        Some(z) => zone_fires(expression, z, now),
        None => local_fires(expression, now),
    }
}

/// The first time at which a schedule fires, with whether it fires only once.
pub fn next_fire_and_single(fires: &Fires) -> (r: Option<(i64, bool)>)
    ensures
        r == match fires.first {
            Some(t) => Some((t, fires.second is None)),
            None => None,
        },
{
    match fires.first {
        Some(t) => Some((t, fires.second.is_none())),
        None => None,
    }
}

/// When a new job runs first, and whether it runs only once.
#[derive(Debug)]
pub struct JobPlan {
    pub next_run_at: Option<String>,
    pub single_run: bool,
}

/// The error for an expression that is not accepted.
pub open spec fn invalid_cron_text(expression: Seq<char>) -> Seq<char> {
    "Invalid cron expression: '"@ + expression
        + "'. Use 7-field format: sec min hour dom month dow year  (e.g. '0 0 9 * * * *' = every day at 9:00)"@
}

/// The error for an expression that never fires again.
pub open spec fn no_fire_text(expression: Seq<char>) -> Seq<char> {
    "Cron expression '"@ + expression + "' has no upcoming fire times"@
}

/// Whether a plan, or an error, is that of a job: an immediate one runs once
/// and is not scheduled; any other runs first when its expression fires first,
/// and only once where it is told to or fires only once.
pub open spec fn is_plan(
    r: Result<JobPlan, String>,
    expression: Seq<char>,
    kind: Seq<char>,
    single_run: bool,
    fires: Option<(Option<int>, Option<int>)>,
) -> bool {
    if kind == "immediate"@ {
        r matches Ok(p) && p.next_run_at is None && p.single_run
    } else {
        match fires {
            None => r matches Err(e) && e@ == invalid_cron_text(expression),
            Some((None, _)) => r matches Err(e) && e@ == no_fire_text(expression),
            Some((Some(first), second)) => r matches Ok(p) && opt_text(p.next_run_at) == Some(
                rfc3339_of(first),
            ) && p.single_run == (single_run || second is None),
        }
    }
}

/// Plans a job whose expression fires at these times; `None` where the
/// expression is not accepted.
pub fn plan_with(expression: &str, kind: &str, single_run: bool, fires: Option<Fires>) -> (r: Result<
    JobPlan,
    String,
>)
    ensures
        is_plan(r, expression@, kind@, single_run, opt_times(fires)),
{
    if str_eq(kind, "immediate") {
        return Ok(JobPlan { next_run_at: None, single_run: true });
    }
    match fires {
        None => {
            let mut e: String = "Invalid cron expression: '".to_owned();
            e.append(expression);
            e.append(
                "'. Use 7-field format: sec min hour dom month dow year  (e.g. '0 0 9 * * * *' = every day at 9:00)",
            );
            Err(e)
        },
        Some(f) => match next_fire_and_single(&f) {
            None => {
                let mut e: String = "Cron expression '".to_owned();
                e.append(expression);
                e.append("' has no upcoming fire times");
                Err(e)
            },
            Some((first, once)) => Ok(
                JobPlan { next_run_at: Some(rfc3339(first)), single_run: single_run || once },
            ),
        },
    }
}

/// Plans a job that is added now. In a zone the plan is exact; in the system's
/// own zone it is that of whatever times the expression fires at.
pub fn plan_job(expression: &str, kind: &str, single_run: bool, zone: Option<&str>, now: i64) -> (r: Result<
    JobPlan,
    String,
>)
    requires
        0 <= now < LATEST,
    ensures
        match zone {
            Some(z) => is_plan(
                r,
                expression@,
                kind@,
                single_run,
                fires_of(expression@, z@, now as int),
            ),
            None => exists|fires: Option<(Option<int>, Option<int>)>|
                #[trigger] is_plan(r, expression@, kind@, single_run, fires) && (kind@
                    != "immediate"@ ==> may_fire(fires, expression@, now as int)),
        },
{
    if str_eq(kind, "immediate") {
        let r: Result<JobPlan, String> = plan_with(expression, kind, single_run, None);
        proof {
            let none: Option<(Option<int>, Option<int>)> = None;
            assert(is_plan(r, expression@, kind@, single_run, none));
        }
        return r;
    }
    let fires: Option<Fires> = next_fires(expression, zone, now);
    let r: Result<JobPlan, String> = plan_with(expression, kind, single_run, fires);
    assert(is_plan(r, expression@, kind@, single_run, opt_times(fires)));
    r
}

/// When a job runs next after a run or when it is enabled again, as text;
/// `None` where its expression is not accepted or fires no more.
pub open spec fn next_run_of(fires: Option<(Option<int>, Option<int>)>) -> Option<Seq<char>> {
    match fires {
        Some((Some(first), _)) => Some(rfc3339_of(first)),
        _ => None,
    }
}

/// When a job runs next whose expression fires at these times.
pub fn next_run(fires: Option<Fires>) -> (r: Option<String>)
    ensures
        opt_text(r) == next_run_of(opt_times(fires)),
{
    match fires {
        Some(f) => match f.first {
            Some(t) => Some(rfc3339(t)),
            None => None,
        },
        None => None,
    }
}

/// When a job runs next after a run: never where it is to run only once.
pub fn next_run_after(job: &ScheduledJob, zone: Option<&str>, now: i64) -> (r: Option<String>)
    requires
        0 <= now < LATEST,
    ensures
        job.single_run ==> r is None,
        !job.single_run ==> match zone {
            Some(z) => opt_text(r) == next_run_of(fires_of(job.cron@, z@, now as int)),
            None => exists|fires: Option<(Option<int>, Option<int>)>|
                opt_text(r) == next_run_of(fires) && #[trigger] may_fire(
                    fires,
                    job.cron@,
                    now as int,
                ),
        },
{
    if job.single_run {
        None
    } else {
        let fires: Option<Fires> = next_fires(job.cron.as_str(), zone, now);
        let ghost times = opt_times(fires);
        let r: Option<String> = next_run(fires);
        assert(opt_text(r) == next_run_of(times));
        r
    }
}

/// The context that a job's run is told about.
pub fn job_context(job: &ScheduledJob, started: i64) -> (r: String)
    ensures
        r@ == "[Job context]\nJob ID: "@ + decimal(job.id as int) + " — "@ + job.title@ + "\nTime: "@
            + minute_of(started as int) + " UTC"@,
{
    let mut t: String = "[Job context]\nJob ID: ".to_owned();
    let id: String = i64_text(job.id);
    t.append(id.as_str());
    t.append(" — ");
    t.append(job.title.as_str());
    t.append("\nTime: ");
    let minute: String = minute_text(started);
    t.append(minute.as_str());
    t.append(" UTC");
    t
}

/// The label of a job's session.
pub fn job_label(job: &ScheduledJob) -> (r: String)
    ensures
        r@ == "CronJob: "@ + job.title@,
{
    let mut t: String = "CronJob: ".to_owned();
    t.append(job.title.as_str());
    t
}

/// Whether a message is an answer that was completed.
pub open spec fn is_answer(m: ChatMessage) -> bool {
    m.role == Role::Assistant && m.status@ == "ok"@
}

/// The last completed answer of a session, of all of its messages in order of
/// their ids.
pub fn last_assistant_message(all: &Vec<ChatMessage>) -> (r: Option<String>)
    ensures
        match r {
            Some(t) => exists|i: int|
                0 <= i < all@.len() && is_answer(#[trigger] all@[i]) && t@ == all@[i].content@ && (
                forall|j: int| i < j < all@.len() ==> !is_answer(#[trigger] all@[j])),
            None => forall|j: int| 0 <= j < all@.len() ==> !is_answer(#[trigger] all@[j]),
        },
{
    let mut i: usize = all.len();
    while i > 0
        invariant
            i <= all@.len(),
            forall|j: int| i <= j < all@.len() ==> !is_answer(#[trigger] all@[j]),
        decreases i,
    {
        i = i - 1;
        let m: &ChatMessage = &all[i];
        if m.role == Role::Assistant && str_eq(m.status.as_str(), "ok") {
            assert(is_answer(all@[i as int]));
            return Some(m.content.as_str().to_owned());
        }
    }
    None
}

/// What a finished run leaves behind.
#[derive(Debug)]
pub struct JobReport {
    pub status: String,
    pub final_response: Option<String>,
    pub error: Option<String>,
    pub duration_ms: i64,
    /// The notification for the home source.
    pub notice: String,
}

/// Reports a run that lasted from `started_ms` to `completed_ms`. `failure` is
/// the error of a run that failed, `response` the last answer.
pub fn report_run(
    job: &ScheduledJob,
    started_ms: i64,
    completed_ms: i64,
    response: Option<String>,
    failure: Option<String>,
) -> (r: JobReport)
    requires
        i64::MIN <= completed_ms - started_ms <= i64::MAX,
    ensures
        r.duration_ms == completed_ms - started_ms,
        ({
            let lead = "CronJob ID "@ + decimal(job.id as int) + " ("@ + job.title@;
            match failure {
                None => {
                    &&& r.status@ == "completed"@
                    &&& opt_text(r.final_response) == opt_text(response)
                    &&& r.error is None
                    &&& r.notice@ == lead + ") has completed with the following outcome: "@
                        + match response {
                        Some(t) => t@,
                        None => "(no output)"@,
                    }
                },
                Some(e) => {
                    &&& r.status@ == "failed"@
                    &&& r.final_response is None
                    &&& opt_text(r.error) == Some(e@)
                    &&& r.notice@ == lead + ") has failed with the following error: "@ + e@
                        + " (check the logs)"@
                },
            }
        }),
{
    let duration_ms: i64 = completed_ms - started_ms;
    let mut notice: String = "CronJob ID ".to_owned();
    let id: String = i64_text(job.id);
    notice.append(id.as_str());
    notice.append(" (");
    notice.append(job.title.as_str());
    match failure {
        None => {
            notice.append(") has completed with the following outcome: ");
            match &response {
                Some(t) => {
                    notice.append(t.as_str());
                },
                None => {
                    notice.append("(no output)");
                },
            }
            JobReport {
                status: "completed".to_owned(),
                final_response: response,
                error: None,
                duration_ms,
                notice,
            }
        },
        Some(e) => {
            notice.append(") has failed with the following error: ");
            notice.append(e.as_str());
            notice.append(" (check the logs)");
            JobReport {
                status: "failed".to_owned(),
                final_response: None,
                error: Some(e),
                duration_ms,
                notice,
            }
        },
    }
}

/// The next time at which a schedule fires, and whether it is the last.
pub proof fn law_the_next_fire(fires: &Fires, r: Option<(i64, bool)>)
    requires
        call_ensures(next_fire_and_single, (fires,), r),
    ensures
        r is Some <==> fires.first is Some,
        r matches Some((t, single)) ==> Some(t) == fires.first && (single <==> fires.second is None),
{
}

/// A job that is to run at once has no schedule and runs once. Any other needs
/// an expression that can be read and fires again: it next runs at the first
/// time, and runs once where that was asked for or no second time follows.
pub proof fn law_planned_jobs(
    expression: &str,
    kind: &str,
    single_run: bool,
    fires: Option<Fires>,
    r: Result<JobPlan, String>,
)
    requires
        call_ensures(plan_with, (expression, kind, single_run, fires), r),
    ensures
        kind@ == "immediate"@ ==> r is Ok && r->Ok_0.next_run_at is None && r->Ok_0.single_run,
        kind@ != "immediate"@ ==> (r is Ok <==> fires is Some && fires->Some_0.first is Some),
        kind@ != "immediate"@ && r is Ok ==> r->Ok_0.next_run_at is Some
            && r->Ok_0.next_run_at->Some_0@ == rfc3339_of(fires->Some_0.first->Some_0 as int)
            && r->Ok_0.single_run == (single_run || fires->Some_0.second is None),
        r matches Err(e) ==> e@ == if fires is None {
            "Invalid cron expression: '"@ + expression@
                + "'. Use 7-field format: sec min hour dom month dow year  (e.g. '0 0 9 * * * *' = every day at 9:00)"@
        } else {
            "Cron expression '"@ + expression@ + "' has no upcoming fire times"@
        },
{
}

/// Planning a job in a zone is planning it by the times at which it fires
/// there.
pub proof fn law_jobs_are_planned_by_their_zone(
    expression: &str,
    kind: &str,
    single_run: bool,
    zone: &str,
    now: i64,
    fires: Option<Fires>,
    r: Result<JobPlan, String>,
    s: Result<JobPlan, String>,
)
    requires
        call_ensures(plan_job, (expression, kind, single_run, Some(zone), now), r),
        call_ensures(next_fires, (expression, Some(zone), now), fires),
        call_ensures(plan_with, (expression, kind, single_run, fires), s),
    ensures
        r is Ok <==> s is Ok,
        r is Ok ==> opt_text(r->Ok_0.next_run_at) == opt_text(s->Ok_0.next_run_at)
            && r->Ok_0.single_run == s->Ok_0.single_run,
        r is Err ==> r->Err_0@ == s->Err_0@,
{
}

/// When a job runs next: never again where it was to run once, else at the
/// first time at which its schedule fires.
pub proof fn law_the_next_run(
    job: &ScheduledJob,
    zone: &str,
    now: i64,
    r: Option<String>,
    cron: &str,
    fires: Option<Fires>,
)
    requires
        call_ensures(next_run_after, (job, Some(zone), now), r),
        call_ensures(next_fires, (cron, Some(zone), now), fires),
        cron@ == job.cron@,
    ensures
        r is Some <==> !job.single_run && fires is Some && fires->Some_0.first is Some,
        r matches Some(t) ==> t@ == rfc3339_of(fires->Some_0.first->Some_0 as int),
{
}

/// The last answer of a conversation: the last message that is the assistant's
/// and went well.
pub proof fn law_the_last_answer(all: &Vec<ChatMessage>, r: Option<String>, i: int)
    requires
        call_ensures(last_assistant_message, (all,), r),
        0 <= i < all@.len(),
        all@[i].role is Assistant && all@[i].status@ == "ok"@,
        forall|j: int|
            i < j < all@.len() ==> !((#[trigger] all@[j]).role is Assistant && all@[j].status@
                == "ok"@),
    ensures
        r is Some,
        r->Some_0@ == all@[i].content@,
{
    assert(is_answer(all@[i]));
    if r is Some {
        let k = choose|k: int|
            0 <= k < all@.len() && is_answer(#[trigger] all@[k]) && r->Some_0@ == all@[k].content@
                && (forall|j: int| k < j < all@.len() ==> !is_answer(#[trigger] all@[j]));
        if k > i {
            assert(!(all@[k].role is Assistant && all@[k].status@ == "ok"@));
        }
    }
}

/// What is told of a run: how long it took, how it ended, and what came of it.
pub proof fn law_reports(
    job: &ScheduledJob,
    started: i64,
    completed: i64,
    response: Option<String>,
    failure: Option<String>,
    r: JobReport,
)
    requires
        call_ensures(report_run, (job, started, completed, response, failure), r),
    ensures
        r.duration_ms == completed - started,
        failure is None ==> r.status@ == "completed"@ && r.error is None && opt_text(
            r.final_response,
        ) == opt_text(response),
        failure matches Some(e) ==> r.status@ == "failed"@ && r.final_response is None && opt_text(
            r.error,
        ) == Some(e@),
        r.notice@ == "CronJob ID "@ + decimal(job.id as int) + " ("@ + job.title@ + (match failure {
            None => ") has completed with the following outcome: "@,
            Some(_) => ") has failed with the following error: "@,
        }) + (match (failure, response) {
            (Some(e), _) => e@ + " (check the logs)"@,
            (None, Some(t)) => t@,
            (None, None) => "(no output)"@,
        }),
{
    let lead = "CronJob ID "@ + decimal(job.id as int) + " ("@ + job.title@;
    if failure is Some {
        let e = failure->Some_0@;
        assert(lead + ") has failed with the following error: "@ + e + " (check the logs)"@ =~= lead
            + ") has failed with the following error: "@ + (e + " (check the logs)"@));
    }
}

/// How a job is introduced and labelled.
pub proof fn law_job_texts(job: &ScheduledJob, started: i64, context: String, label: String)
    requires
        call_ensures(job_context, (job, started), context),
        call_ensures(job_label, (job,), label),
    ensures
        context@ == "[Job context]\nJob ID: "@ + decimal(job.id as int) + " — "@ + job.title@
            + "\nTime: "@ + minute_of(started as int) + " UTC"@,
        label@ == "CronJob: "@ + job.title@,
{
}

/// The next run of a schedule is the first time at which it fires.
pub proof fn law_next_runs(fires: Option<Fires>, r: Option<String>)
    requires
        call_ensures(next_run, (fires,), r),
    ensures
        r is Some <==> fires is Some && fires->Some_0.first is Some,
        r matches Some(t) ==> t@ == rfc3339_of(fires->Some_0.first->Some_0 as int),
{
}

/// Where no zone is given, times are told exactly of expressions that are
/// accepted; the second only behind a first, which lies after now but for what
/// two clocks can be apart.
pub proof fn law_fires_without_a_zone(expression: &str, now: i64, r: Option<Fires>)
    requires
        call_ensures(next_fires, (expression, None::<&str>, now), r),
    ensures
        r is Some <==> cron_accepts(expression@),
        r matches Some(f) ==> (f.second is Some ==> f.first is Some),
        r matches Some(f) ==> (f.first is Some ==> f.first->Some_0 > now - 2 * 86_400),
{
}

} // verus!
