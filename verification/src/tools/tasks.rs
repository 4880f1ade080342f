//! Creating and deleting tasks.
use vstd::prelude::*;

use crate::json::{
    json_text, opt_json, stored_json, write_json, Json, JsonView, ObjectBuilder,
};
use crate::numerals::{decimal, i64_text};
use crate::text::{opt_text, or_text, str_eq, text_or, trim, trimmed};
use crate::tools::ToolCategory;

verus! {

/// How a task runs.
#[derive(Debug, Clone, Copy, PartialEq, Eq, Structural)]
pub enum TaskMode {
    /// On a schedule.
    Cron,
    /// At once, with the caller waiting for the result.
    Sync,
    /// In the background.
    Async,
}

/// A task to create.
#[derive(Debug)]
pub struct TaskRequest {
    pub mode: TaskMode,
    pub title: String,
    pub description: String,
    pub cron: String,
    pub prompt: String,
    pub agent_id: String,
}

/// The trimmed text of an argument, or a default.
pub open spec fn argument(args: JsonView, key: Seq<char>, default: Seq<char>) -> Seq<char> {
    trimmed(or_text(args.field(key).as_text(), default))
}

/// Why an `execute_task` call is refused, if it is.
pub open spec fn task_refusal(args: JsonView) -> Option<Seq<char>> {
    let mode = argument(args, "mode"@, ""@);
    if argument(args, "title"@, ""@).len() == 0 {
        Some("title is required"@)
    } else if argument(args, "prompt"@, ""@).len() == 0 {
        Some("prompt is required"@)
    } else if mode == "cron"@ && argument(args, "cron"@, ""@).len() == 0 {
        Some("cron expression is required for mode=cron"@)
    } else if mode != "cron"@ && mode != "sync"@ && mode != "async"@ {
        Some("mode must be one of: cron, sync, async"@)
    } else {
        None
    }
}

/// The name of a mode.
pub open spec fn mode_name(mode: TaskMode) -> Seq<char> {
    match mode {
        TaskMode::Cron => "cron"@,
        TaskMode::Sync => "sync"@,
        TaskMode::Async => "async"@,
    }
}

/// What the creation of a scheduled task answers.
pub open spec fn scheduled_answer(
    id: int,
    title: Seq<char>,
    single: bool,
    next: Option<Seq<char>>,
) -> JsonView {
    JsonView::Object(
        seq![
            ("task_id"@, JsonView::Number(decimal(id))),
            ("mode"@, JsonView::Text("cron"@)),
            ("recurring"@, JsonView::Bool(!single)),
            ("next_run_at"@, opt_json(next)),
            (
                "message"@,
                JsonView::Text(
                    "Created "@ + if single {
                        "one-shot"@
                    } else {
                        "recurring"@
                    } + " cron task "@ + decimal(id) + " — '"@ + title + "'"@,
                ),
            ),
        ],
    )
}

/// What the start of a background task answers.
pub open spec fn started_answer(id: int, title: Seq<char>) -> JsonView {
    JsonView::Object(
        seq![
            ("task_id"@, JsonView::Number(decimal(id))),
            ("status"@, JsonView::Text("started"@)),
            (
                "message"@,
                JsonView::Text(
                    "Task "@ + decimal(id) + " ('"@ + title
                        + "') is running in the background. The system will automatically deliver the result to this conversation when complete. Do NOT call read_agent_result or read_notifications — no polling needed. Continue the conversation normally."@,
                ),
            ),
        ],
    )
}

/// The tool that creates tasks.
pub struct ExecuteTask;

impl ExecuteTask {
    pub fn name(&self) -> (r: &'static str)
        ensures
            r@ == "execute_task"@,
    {
        "execute_task"
    }

    fn argument(&self, args: &Json, key: &str, default: &str) -> (r: String)
        ensures
            r@ == argument(args@, key@, default@),
    {
        let t: String = text_or(args.text_field(key), default);
        trim(t.as_str())
    }

    /// Reads a call.
    pub fn request(&self, args: &Json) -> (r: Result<TaskRequest, String>)
        ensures
            match r {
                Ok(q) => {
                    &&& task_refusal(args@) is None
                    &&& mode_name(q.mode) == argument(args@, "mode"@, ""@)
                    &&& q.title@ == argument(args@, "title"@, ""@)
                    &&& q.description@ == argument(args@, "description"@, ""@)
                    &&& q.cron@ == argument(args@, "cron"@, ""@)
                    &&& q.prompt@ == argument(args@, "prompt"@, ""@)
                    &&& q.agent_id@ == argument(args@, "agent_id"@, "worker"@)
                },
                Err(e) => task_refusal(args@) == Some(e@),
            },
    {
        let mode: String = self.argument(args, "mode", "");
        let title: String = self.argument(args, "title", "");
        let description: String = self.argument(args, "description", "");
        let cron: String = self.argument(args, "cron", "");
        let prompt: String = self.argument(args, "prompt", "");
        let agent_id: String = self.argument(args, "agent_id", "worker");
        proof {
            reveal_strlit("cron");
            reveal_strlit("sync");
            reveal_strlit("async");
            assert("cron"@[0] == 'c' && "sync"@[0] == 's' && "async"@.len() == 5);
        }
        if title.as_str().unicode_len() == 0 {
            return Err("title is required".to_owned());
        }
        if prompt.as_str().unicode_len() == 0 {
            return Err("prompt is required".to_owned());
        }
        let picked: TaskMode = if str_eq(mode.as_str(), "cron") {
            if cron.as_str().unicode_len() == 0 {
                return Err("cron expression is required for mode=cron".to_owned());
            }
            TaskMode::Cron
        } else if str_eq(mode.as_str(), "sync") {
            TaskMode::Sync
        } else if str_eq(mode.as_str(), "async") {
            TaskMode::Async
        } else {
            return Err("mode must be one of: cron, sync, async".to_owned());
        };
        Ok(TaskRequest { mode: picked, title, description, cron, prompt, agent_id })
    }

    /// The answer of a call that created a scheduled task.
    pub fn scheduled(
        &self,
        id: i64,
        title: &str,
        single_run: bool,
        next_run_at: &Option<String>,
    ) -> (r: String)
        ensures
            r@ == json_text(
                stored_json(
                    scheduled_answer(id as int, title@, single_run, opt_text(*next_run_at)),
                ),
            ),
    {
        let number: String = i64_text(id);
        let mut t: String = "Created ".to_owned();
        if single_run {
            t.append("one-shot");
        } else {
            t.append("recurring");
        }
        t.append(" cron task ");
        t.append(number.as_str());
        t.append(" — '");
        t.append(title);
        t.append("'");
        let b: ObjectBuilder = ObjectBuilder::new().with_i64("task_id", id).with_text(
            "mode",
            "cron",
        ).with_bool("recurring", !single_run).with_opt_text("next_run_at", next_run_at).with_text(
            "message",
            t.as_str(),
        );
        assert(b.entries() =~= scheduled_answer(
            id as int,
            title@,
            single_run,
            opt_text(*next_run_at),
        )->Object_0);
        let j: Json = b.build();
        write_json(&j)
    }

    /// The answer of a call that started a background task.
    pub fn started(&self, id: i64, title: &str) -> (r: String)
        ensures
            r@ == json_text(stored_json(started_answer(id as int, title@))),
    {
        let number: String = i64_text(id);
        let mut t: String = "Task ".to_owned();
        t.append(number.as_str());
        t.append(" ('");
        t.append(title);
        t.append(
            "') is running in the background. The system will automatically deliver the result to this conversation when complete. Do NOT call read_agent_result or read_notifications — no polling needed. Continue the conversation normally.",
        );
        let b: ObjectBuilder = ObjectBuilder::new().with_i64("task_id", id).with_text(
            "status",
            "started",
        ).with_text("message", t.as_str());
        assert(b.entries() =~= started_answer(id as int, title@)->Object_0);
        let j: Json = b.build();
        write_json(&j)
    }
}

/// The tool that deletes a task.
pub struct DeleteCronJob;

impl DeleteCronJob {
    pub fn name(&self) -> (r: &'static str)
        ensures
            r@ == "delete_cron_job"@,
    {
        "delete_cron_job"
    }

    pub fn category(&self) -> (r: ToolCategory)
        ensures
            r == ToolCategory::Config,
    {
        ToolCategory::Config
    }

    /// The label of a call.
    pub fn describe(&self, args: &Json) -> (r: String)
        ensures
            r@ == "delete cron job #"@ + match args@.field("id"@).as_i64() {
                Some(n) => decimal(n),
                None => "?"@,
            },
    {
        let id: String = match args.i64_field("id") {
            Some(n) => i64_text(n),
            None => "?".to_owned(),
        };
        let mut t: String = "delete cron job #".to_owned();
        t.append(id.as_str());
        t
    }

    /// The task that a call deletes.
    pub fn request(&self, args: &Json) -> (r: Result<i64, String>)
        ensures
            match args@.field("id"@).as_i64() {
                Some(n) => r matches Ok(id) && id == n,
                None => r matches Err(e) && e@ == "id must be an integer"@,
            },
    {
        match args.i64_field("id") {
            Some(n) => Ok(n),
            None => Err("id must be an integer".to_owned()),
        }
    }

    /// The answer, where a task of that id was or was not there.
    pub fn reply(&self, id: i64, found: bool) -> (r: String)
        ensures
            r@ == if found {
                "Task "@ + decimal(id as int) + " deleted."@
            } else {
                "No task with id "@ + decimal(id as int) + "."@
            },
    {
        let number: String = i64_text(id);
        if found {
            let mut t: String = "Task ".to_owned();
            t.append(number.as_str());
            t.append(" deleted.");
            t
        } else {
            let mut t: String = "No task with id ".to_owned();
            t.append(number.as_str());
            t.append(".");
            t
        }
    }
}

/// What a task needs: a title and a prompt that are not blank, one of three
/// modes, and for the scheduled one an expression. Whitespace around an argument
/// does not count. The agent is `worker` unless another is named.
pub proof fn law_task_requests(
    tool: &ExecuteTask,
    args: &Json,
    r: Result<TaskRequest, String>,
    given: spec_fn(Seq<char>) -> Seq<char>,
    text: &str,
    bare: String,
    key: Seq<char>,
)
    requires
        call_ensures(ExecuteTask::request, (tool, args), r),
        forall|k: Seq<char>| #[trigger] given(k) == match args@.field(k) {
            JsonView::Text(t) => trimmed(t),
            _ => trimmed(""@),
        },
    ensures
        r is Ok <==> given("title"@).len() > 0 && given("prompt"@).len() > 0 && (given("mode"@)
            == "sync"@ || given("mode"@) == "async"@ || (given("mode"@) == "cron"@ && given(
            "cron"@,
        ).len() > 0)),
        r matches Ok(q) ==> q.title@ == given("title"@) && q.prompt@ == given("prompt"@)
            && q.description@ == given("description"@) && q.cron@ == given("cron"@) && (
        q.mode is Cron <==> given("mode"@) == "cron"@) && (q.mode is Sync <==> given("mode"@)
            == "sync"@) && (args@.field("agent_id"@) is Text ==> q.agent_id@ == given(
            "agent_id"@,
        )) && (!(args@.field("agent_id"@) is Text) ==> q.agent_id@ == trimmed("worker"@)),
        r matches Err(e) ==> e@ == if given("title"@).len() == 0 {
            "title is required"@
        } else if given("prompt"@).len() == 0 {
            "prompt is required"@
        } else if given("mode"@) == "cron"@ {
            "cron expression is required for mode=cron"@
        } else {
            "mode must be one of: cron, sync, async"@
        },
{
    reveal_strlit("cron");
    reveal_strlit("sync");
    reveal_strlit("async");
    assert("cron"@.len() == 4 && "sync"@.len() == 4 && "async"@.len() == 5);
    assert("cron"@[0] == 'c' && "sync"@[0] == 's');
    assert(given("title"@) == argument(args@, "title"@, ""@));
    assert(given("prompt"@) == argument(args@, "prompt"@, ""@));
    assert(given("mode"@) == argument(args@, "mode"@, ""@));
    assert(given("cron"@) == argument(args@, "cron"@, ""@));
    assert(given("description"@) == argument(args@, "description"@, ""@));
    assert(given("agent_id"@) == argument(args@, "agent_id"@, ""@));
}

/// What is told of a task that was scheduled or started.
pub proof fn law_tasks_are_told(
    tool: &ExecuteTask,
    id: i64,
    title: &str,
    single: bool,
    next: &Option<String>,
    r: String,
    s: String,
    scheduled: &Json,
    started: &Json,
    a: String,
    b: String,
)
    requires
        call_ensures(ExecuteTask::scheduled, (tool, id, title, single, next), r),
        call_ensures(ExecuteTask::started, (tool, id, title), s),
        call_ensures(write_json, (scheduled,), a),
        call_ensures(write_json, (started,), b),
        scheduled@ == JsonView::Object(
            seq![
                ("task_id"@, JsonView::Number(decimal(id as int))),
                ("mode"@, JsonView::Text("cron"@)),
                ("recurring"@, JsonView::Bool(!single)),
                ("next_run_at"@, match *next {
                    Some(t) => JsonView::Text(t@),
                    None => JsonView::Null,
                }),
                (
                    "message"@,
                    JsonView::Text(
                        "Created "@ + (if single {
                            "one-shot"@
                        } else {
                            "recurring"@
                        }) + " cron task "@ + decimal(id as int) + " — '"@ + title@ + "'"@,
                    ),
                ),
            ],
        ),
        started@ == JsonView::Object(
            seq![
                ("task_id"@, JsonView::Number(decimal(id as int))),
                ("status"@, JsonView::Text("started"@)),
                (
                    "message"@,
                    JsonView::Text(
                        "Task "@ + decimal(id as int) + " ('"@ + title@
                            + "') is running in the background. The system will automatically deliver the result to this conversation when complete. Do NOT call read_agent_result or read_notifications — no polling needed. Continue the conversation normally."@,
                    ),
                ),
            ],
        ),
    ensures
        r@ == a@,
        s@ == b@,
{
    let have = scheduled@->Object_0;
    let want = scheduled_answer(id as int, title@, single, opt_text(*next))->Object_0;
    assert(have[3] == want[3]);
    assert(have =~= want);
}

/// A job is deleted by its number, and told to be, or not to be there.
pub proof fn law_deleted_jobs(tool: &DeleteCronJob, args: &Json, key: &str, given: Option<i64>, r: Result<i64, String>, id: i64, found: bool, told: String)
    requires
        call_ensures(DeleteCronJob::request, (tool, args), r),
        call_ensures(Json::i64_field, (args, key), given),
        key@ == "id"@,
        call_ensures(DeleteCronJob::reply, (tool, id, found), told),
    ensures
        given matches Some(n) ==> r == Ok::<i64, String>(n),
        given is None ==> r is Err && r->Err_0@ == "id must be an integer"@,
        told@ == if found {
            "Task "@ + decimal(id as int) + " deleted."@
        } else {
            "No task with id "@ + decimal(id as int) + "."@
        },
{
}

/// How the tools on tasks are named and described.
pub proof fn law_described_tasks(a: &ExecuteTask, b: &DeleteCronJob, args: &Json, key: &str, id: Option<i64>, r: String, name: &'static str, other: &'static str)
    requires
        call_ensures(DeleteCronJob::describe, (b, args), r),
        call_ensures(Json::i64_field, (args, key), id),
        key@ == "id"@,
        call_ensures(ExecuteTask::name, (a,), name),
        call_ensures(DeleteCronJob::name, (b,), other),
    ensures
        r@ == "delete cron job #"@ + (match id {
            Some(n) => decimal(n as int),
            None => "?"@,
        }),
        name@ == "execute_task"@ && other@ == "delete_cron_job"@,
{
}

} // verus!
