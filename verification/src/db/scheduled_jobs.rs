//! Scheduled jobs and their runs.
use vstd::prelude::*;

use crate::sorting::{
    by_text, is_total_preorder, law_stable_sorted, law_text_order, lemma_inserted_at,
    stable_sorted, text_le, text_not_after,
};
use crate::text::{lemma_filter_last, str_eq};

verus! {

/// A scheduled job.
#[derive(Debug, Clone)]
pub struct ScheduledJob {
    pub id: i64,
    pub title: String,
    pub description: String,
    pub cron: String,
    pub prompt: String,
    pub agent_id: String,
    pub session_id: Option<i64>,
    pub enabled: bool,
    pub last_run_at: Option<String>,
    pub next_run_at: Option<String>,
    pub single_run: bool,
    /// The session of the run in flight.
    pub running_session_id: Option<i64>,
    pub kind: String,
    pub created_at: String,
}

/// A finished run of a job.
#[derive(Debug, Clone)]
pub struct JobRun {
    pub id: i64,
    pub job_id: i64,
    pub session_id: Option<i64>,
    pub started_at: String,
    pub completed_at: Option<String>,
    pub duration_ms: Option<i64>,
    pub status: String,
    pub final_response: Option<String>,
    pub error: Option<String>,
    pub created_at: String,
}

/// A finished run with what its job says of it.
#[derive(Debug, Clone)]
pub struct JobRunWithMeta {
    pub id: i64,
    pub job_id: i64,
    pub job_title: Option<String>,
    pub agent_id: Option<String>,
    pub kind: Option<String>,
    pub session_id: Option<i64>,
    pub started_at: String,
    pub completed_at: Option<String>,
    pub duration_ms: Option<i64>,
    pub status: String,
    pub final_response: Option<String>,
    pub error: Option<String>,
    pub created_at: String,
}

impl ScheduledJob {
    /// Whether a job is due at a time: it is enabled, scheduled, not running,
    /// and its next run is not after the time. Times are compared as text.
    pub open spec fn due_at(&self, now: Seq<char>) -> bool {
        &&& self.kind@ == "cron"@
        &&& self.enabled
        &&& self.running_session_id is None
        &&& match self.next_run_at {
            Some(t) => text_le(t@, now),
            None => false,
        }
    }

    pub fn is_due(&self, now: &str) -> (r: bool)
        ensures
            r == self.due_at(now@),
    {
        if !str_eq(self.kind.as_str(), "cron") || !self.enabled || self.running_session_id.is_some() {
            return false;
        }
        match &self.next_run_at {
            Some(t) => text_not_after(t.as_str(), now),
            None => false,
        }
    }

    /// Whether the job was running when the process ended.
    pub fn is_interrupted(&self) -> (r: bool)
        ensures
            r == (self.running_session_id is Some),
    {
        self.running_session_id.is_some()
    }

    /// Whether the job ran once and for all before a time. Times are compared
    /// as text.
    pub open spec fn expired_before(&self, cutoff: Seq<char>) -> bool {
        &&& self.single_run
        &&& !self.enabled
        &&& match self.last_run_at {
            Some(t) => !text_le(cutoff, t@),
            None => false,
        }
    }

    /// Whether the job can be removed: it ran once and for all before a time.
    pub fn is_expired(&self, cutoff: &str) -> (r: bool)
        ensures
            r == self.expired_before(cutoff@),
    {
        if !self.single_run || self.enabled {
            return false;
        }
        match &self.last_run_at {
            Some(t) => !text_not_after(cutoff, t.as_str()),
            None => false,
        }
    }

    /// Marks the job as running in a session.
    pub fn set_running(&mut self, session_id: i64)
        ensures
            *final(self) == (ScheduledJob { running_session_id: Some(session_id), ..*old(self) }),
    {
        self.running_session_id = Some(session_id);
    }

    /// Marks the job as finished: the run is over, the last run is now, and
    /// the job waits for its next run or, without one, is disabled.
    pub fn finish_run(&mut self, now: String, next_run_at: Option<String>)
        ensures
            *final(self) == (ScheduledJob {
                last_run_at: Some(now),
                running_session_id: None,
                next_run_at: match next_run_at {
                    Some(t) => Some(t),
                    None => old(self).next_run_at,
                },
                enabled: match next_run_at {
                    Some(_) => old(self).enabled,
                    None => false,
                },
                ..*old(self)
            }),
    {
        self.last_run_at = Some(now);
        self.running_session_id = None;
        match next_run_at {
            Some(t) => {
                self.next_run_at = Some(t);
            },
            None => {
                self.enabled = false;
            },
        }
    }

    /// Enables or disables the job. An enabled job takes over its next run
    /// where one is known, so that a stale time does not fire at once.
    pub fn set_enabled(&mut self, enabled: bool, next: Option<String>)
        ensures
            *final(self) == (ScheduledJob {
                enabled,
                next_run_at: if enabled && next is Some {
                    next
                } else {
                    old(self).next_run_at
                },
                ..*old(self)
            }),
    {
        self.enabled = enabled;
        if enabled && next.is_some() {
            self.next_run_at = next;
        }
    }
}

/// A job is not due while it runs, and one that finished without a next run
/// is never due again.
pub proof fn law_running_and_finished_jobs_are_not_due(job: ScheduledJob, session: i64, last: String, now: Seq<char>)
    ensures
        !(ScheduledJob { running_session_id: Some(session), ..job }).due_at(now),
        !(ScheduledJob {
            last_run_at: Some(last),
            running_session_id: None,
            enabled: false,
            ..job
        }).due_at(now),
{
}

/// A job that is due is never removed.
pub proof fn law_due_jobs_are_not_expired(job: ScheduledJob, now: Seq<char>, cutoff: Seq<char>)
    requires
        job.due_at(now),
    ensures
        !job.expired_before(cutoff),
{
}

/// Which jobs are due.
pub open spec fn due(now: Seq<char>) -> spec_fn(ScheduledJob) -> bool {
    |j: ScheduledJob| j.due_at(now)
}

/// The order of jobs by their next run; a job without one comes first.
pub open spec fn by_next_run() -> spec_fn(ScheduledJob, ScheduledJob) -> bool {
    |a: ScheduledJob, b: ScheduledJob| runs_no_later(a, b)
}

pub open spec fn runs_no_later(a: ScheduledJob, b: ScheduledJob) -> bool {
    match (a.next_run_at, b.next_run_at) {
        (Some(x), Some(y)) => text_le(x@, y@),
        (None, _) => true,
        (Some(_), None) => false,
    }
}

fn no_later(a: &ScheduledJob, b: &ScheduledJob) -> (r: bool)
    ensures
        r == runs_no_later(*a, *b),
{
    match (&a.next_run_at, &b.next_run_at) {
        (Some(x), Some(y)) => text_not_after(x.as_str(), y.as_str()),
        (None, _) => true,
        (Some(_), None) => false,
    }
}

/// The jobs that are due, in the order of their next run.
pub fn list_due(jobs: Vec<ScheduledJob>, now: &str) -> (r: Vec<ScheduledJob>)
    ensures
        r@ == stable_sorted(jobs@.filter(due(now@)), by_next_run()),
{
    let ghost all = jobs@;
    let ghost pred = due(now@);
    let ghost le = by_next_run();
    let mut rest: Vec<ScheduledJob> = jobs;
    let mut out: Vec<ScheduledJob> = Vec::new();
    let ghost mut n: int = 0;
    assert(all.skip(0) =~= all);
    assert(all.take(0).filter(pred) =~= Seq::<ScheduledJob>::empty()) by {
        reveal(Seq::filter);
    }
    assert(out@ =~= stable_sorted(all.take(0).filter(pred), le));
    while rest.len() > 0
        invariant
            0 <= n <= all.len(),
            rest@ == all.skip(n),
            pred == due(now@),
            le == by_next_run(),
            out@ == stable_sorted(all.take(n).filter(pred), le),
        decreases rest@.len(),
    {
        let x: ScheduledJob = rest.remove(0);
        let ghost kept = all.take(n).filter(pred);
        proof {
            assert(x == all[n]);
            assert(all.skip(n).remove(0) =~= all.skip(n + 1));
            assert(all.take(n + 1).drop_last() =~= all.take(n));
            lemma_filter_last(all.take(n + 1), pred);
            n = n + 1;
        }
        if x.is_due(now) {
            proof {
                assert(kept.push(x).drop_last() =~= kept);
            }
            let mut k: usize = out.len();
            while k > 0 && !no_later(&out[k - 1], &x)
                invariant
                    k <= out@.len(),
                    le == by_next_run(),
                    forall|j: int| k <= j < out@.len() ==> !le(#[trigger] out@[j], x),
                decreases k,
            {
                k = k - 1;
            }
            proof {
                lemma_inserted_at(out@, x, le, k as int);
            }
            out.insert(k, x);
        }
    }
    assert(all.take(n) =~= all);
    out
}

/// A job is due where it is scheduled, enabled, not running, and its next run
/// is not in the future. It has expired where it ran once, is switched off, and
/// last ran before the cutoff.
pub proof fn law_due_and_expired_jobs(
    job: &ScheduledJob,
    now: &str,
    r: bool,
    expired: bool,
    running: bool,
    next: &str,
    last: &str,
    reached: bool,
    kept: bool,
)
    requires
        call_ensures(ScheduledJob::is_due, (job, now), r),
        call_ensures(ScheduledJob::is_expired, (job, now), expired),
        call_ensures(ScheduledJob::is_interrupted, (job,), running),
        job.next_run_at matches Some(t) ==> next@ == t@,
        job.last_run_at matches Some(t) ==> last@ == t@,
        call_ensures(text_not_after, (next, now), reached),
        call_ensures(text_not_after, (now, last), kept),
    ensures
        r <==> job.kind@ == "cron"@ && job.enabled && !running && job.next_run_at is Some && reached,
        running <==> job.running_session_id is Some,
        expired <==> job.single_run && !job.enabled && job.last_run_at is Some && !kept,
{
}

/// The jobs to run now are exactly those that are due, as often as each occurs,
/// the one whose run is longest overdue first.
pub proof fn law_jobs_to_run(
    jobs: Vec<ScheduledJob>,
    now: &str,
    r: Vec<ScheduledJob>,
    x: ScheduledJob,
    due_now: bool,
    i: int,
    j: int,
)
    requires
        call_ensures(list_due, (jobs, now), r),
        call_ensures(ScheduledJob::is_due, (&x, now), due_now),
        0 <= i < j < r@.len(),
    ensures
        r@.contains(x) <==> jobs@.contains(x) && due_now,
        r@[i].next_run_at is Some && r@[j].next_run_at is Some,
        text_le(r@[i].next_run_at->Some_0@, r@[j].next_run_at->Some_0@),
{
    broadcast use {
        vstd::seq_lib::group_to_multiset_ensures,
        vstd::seq_lib::group_filter_ensures,
    };

    law_text_order();
    let le = by_next_run();
    let kept = jobs@.filter(due(now@));
    assert(is_total_preorder(le)) by {
        assert forall|a: ScheduledJob| #[trigger] le(a, a) by {
            if a.next_run_at is Some {
                let t = a.next_run_at->Some_0@;
                assert(by_text()(t, t));
            }
        }
        assert forall|a: ScheduledJob, b: ScheduledJob| #[trigger] le(a, b) || le(b, a) by {
            if a.next_run_at is Some && b.next_run_at is Some {
                let t = a.next_run_at->Some_0@;
                let u = b.next_run_at->Some_0@;
                assert(by_text()(t, u) || by_text()(u, t));
            }
        }
        assert forall|a: ScheduledJob, b: ScheduledJob, c: ScheduledJob| #[trigger]
            le(a, b) && #[trigger] le(b, c) implies le(a, c) by {
            if a.next_run_at is Some && b.next_run_at is Some && c.next_run_at is Some {
                let t = a.next_run_at->Some_0@;
                let u = b.next_run_at->Some_0@;
                let v = c.next_run_at->Some_0@;
                assert(by_text()(t, u) && by_text()(u, v));
                assert(by_text()(t, v));
            }
        }
    }
    law_stable_sorted(kept, le);
    assert(r@.contains(x) == kept.contains(x)) by {
        assert(r@.contains(x) == (r@.to_multiset().count(x) > 0));
        assert(kept.contains(x) == (kept.to_multiset().count(x) > 0));
    }
    if kept.contains(x) {
        jobs@.lemma_filter_contains_rev(due(now@), x);
        let k = kept.index_of(x);
        assert(due(now@)(kept[k]));
    }
    if jobs@.contains(x) && due(now@)(x) {
        assert(kept.contains(x));
    }
    assert(le(r@[i], r@[j]));
    assert forall|k: int| 0 <= k < r@.len() implies (#[trigger] r@[k]).next_run_at is Some by {
        assert(r@.contains(r@[k]));
        assert(r@.to_multiset().count(r@[k]) > 0);
        assert(kept.to_multiset().count(r@[k]) > 0);
        assert(kept.contains(r@[k]));
        let m = kept.index_of(r@[k]);
        assert(due(now@)(kept[m]));
    }
}

/// A run that starts marks the job as running; one that ends takes the mark
/// away, and switches the job off where no further run follows.
pub proof fn law_runs_start_and_end(a: &mut ScheduledJob, session_id: i64, b: &mut ScheduledJob, now: String, next: Option<String>)
    requires
        call_ensures(ScheduledJob::set_running, (a, session_id), ()),
        call_ensures(ScheduledJob::finish_run, (b, now, next), ()),
    ensures
        final(a).running_session_id == Some(session_id),
        final(a).enabled == old(a).enabled && final(a).next_run_at == old(a).next_run_at
            && final(a).last_run_at == old(a).last_run_at,
        final(b).running_session_id is None,
        final(b).last_run_at == Some(now),
        next is Some ==> final(b).next_run_at == next && final(b).enabled == old(b).enabled,
        next is None ==> !final(b).enabled && final(b).next_run_at == old(b).next_run_at,
{
}

/// Switching a job on gives it its next run, where there is one; switching it
/// off leaves its times alone.
pub proof fn law_jobs_are_switched(a: &mut ScheduledJob, enabled: bool, next: Option<String>)
    requires
        call_ensures(ScheduledJob::set_enabled, (a, enabled, next), ()),
    ensures
        final(a).enabled == enabled,
        enabled && next is Some ==> final(a).next_run_at == next,
        !enabled || next is None ==> final(a).next_run_at == old(a).next_run_at,
        final(a).running_session_id == old(a).running_session_id && final(a).last_run_at == old(
            a).last_run_at,
{
}

} // verus!
