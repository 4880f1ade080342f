//! Sessions as clients see them, and the resolution of their pending tool
//! calls.
use vstd::prelude::*;

use crate::api::ApiError;
use crate::approval::manager::{rejection_text, ApprovalDecision};
use crate::db::chat_history::{ChatMessage, Role};
use crate::json::{
    json_array, opt_json, opt_number, parse_json, parsed_json, views, Json, JsonView, ObjectBuilder,
};
use crate::numerals::{decimal, i64_text};
use crate::text::{copy_opt, opt_text, str_eq, trim, trimmed};

verus! {

/// The source of a session to create.
#[derive(Debug)]
pub struct CreateQuery {
    pub source: String,
}

/// The source of a request that names none.
pub fn default_source() -> (r: String)
    ensures
        r@ == "web"@,
{
    "web".to_owned()
}

#[derive(Debug)]
pub struct SourcePath {
    pub source: String,
}

#[derive(Debug)]
pub struct ResolveToolPath {
    pub tool_call_id: i64,
}

/// How a pending tool call is resolved.
#[derive(Debug)]
pub struct ResolveToolBody {
    /// "approve" or "reject".
    pub action: String,
    pub note: String,
}

/// What became of a resolved tool call.
#[derive(Debug)]
pub struct ResolveToolResponse {
    pub tool_call_id: i64,
    pub status: String,
    pub result: Option<String>,
}

/// A stored tool call to resolve.
#[derive(Debug)]
pub struct StoredCall {
    pub id: i64,
    pub name: String,
    pub status: String,
}

/// What is done to resolve a tool call.
#[derive(Debug)]
pub enum ResolveStep {
    /// Rejects it with that note. Where no turn waits for it, it is stored as
    /// failed with that text.
    Reject(ApprovalDecision, String),
    /// Stores it as done with that text, and restarts.
    Restart(String),
    /// Approves it. Where no turn waits for it, it is run at once.
    Approve,
}

/// Why a tool call of the web session cannot be resolved, if it cannot.
pub open spec fn resolve_refusal(
    session: Option<i64>,
    call: Option<StoredCall>,
    id: i64,
) -> Option<Seq<char>> {
    match session {
        None => Some("no active web session"@),
        Some(_) => match call {
            None => Some(
                "tool_call_id "@ + decimal(id as int) + " not found in current web session"@,
            ),
            Some(c) => if c.status@ != "pending"@ {
                Some(
                    "tool_call "@ + decimal(c.id as int) + " is not pending (status: "@ + c.status@
                        + ")"@,
                )
            } else {
                None
            },
        },
    }
}

/// How a pending tool call of the web session is resolved, given the active
/// session and the stored call.
pub fn web_resolve_tool(
    session: Option<i64>,
    call: &Option<StoredCall>,
    path: &ResolveToolPath,
    body: ResolveToolBody,
) -> (r: Result<ResolveStep, ApiError>)
    ensures
        match resolve_refusal(session, *call, path.tool_call_id) {
            Some(t) => r matches Err(e) && e.is_internal(t),
            None => match r {
                Ok(step) => if body.action@ == "reject"@ {
                    step matches ResolveStep::Reject(d, text) && d == (ApprovalDecision::Rejected {
                        note: body.note,
                    }) && text@ == rejection_text(body.note@)
                } else if call->Some_0.name@ == "restart"@ {
                    step matches ResolveStep::Restart(t) && t@ == "Riavvio avviato."@
                } else {
                    step is Approve
                },
                Err(_) => false,
            },
        },
{
    if session.is_none() {
        return Err(ApiError::internal("no active web session"));
    }
    let c: &StoredCall = match call {
        Some(c) => c,
        None => {
            let number: String = i64_text(path.tool_call_id);
            let mut t: String = "tool_call_id ".to_owned();
            t.append(number.as_str());
            t.append(" not found in current web session");
            return Err(ApiError::internal(t.as_str()));
        },
    };
    if !str_eq(c.status.as_str(), "pending") {
        let number: String = i64_text(c.id);
        let mut t: String = "tool_call ".to_owned();
        t.append(number.as_str());
        t.append(" is not pending (status: ");
        t.append(c.status.as_str());
        t.append(")");
        return Err(ApiError::internal(t.as_str()));
    }
    if str_eq(body.action.as_str(), "reject") {
        let text: String = ApprovalDecision::rejection_message(body.note.as_str());
        Ok(ResolveStep::Reject(ApprovalDecision::Rejected { note: body.note }, text))
    } else if str_eq(c.name.as_str(), "restart") {
        Ok(ResolveStep::Restart("Riavvio avviato.".to_owned()))
    } else {
        Ok(ResolveStep::Approve)
    }
}

/// What came of the approval of a tool call.
#[derive(Debug)]
pub enum ApprovedCall {
    /// A turn waited for it and goes on.
    Live,
    /// It was run, and returned that.
    Returned(String),
    /// It was run, and failed with that.
    Failed(String),
}

/// The answer to a rejected tool call.
pub fn rejected_response(id: i64, text: String) -> (r: ResolveToolResponse)
    ensures
        r.tool_call_id == id,
        r.status@ == "failed"@,
        r.result == Some(text),
{
    ResolveToolResponse { tool_call_id: id, status: "failed".to_owned(), result: Some(text) }
}

/// The answer to an approved tool call.
pub fn approved_response(id: i64, outcome: ApprovedCall) -> (r: Result<
    ResolveToolResponse,
    ApiError,
>)
    ensures
        match outcome {
            ApprovedCall::Live => r matches Ok(a) && a.tool_call_id == id && a.status@ == "running"@
                && a.result is None,
            ApprovedCall::Returned(text) => r matches Ok(a) && a.tool_call_id == id && a.status@
                == "done"@ && a.result == Some(text),
            ApprovedCall::Failed(e) => r matches Err(a) && a.is_internal(e@),
        },
{
    match outcome {
        ApprovedCall::Live => Ok(
            ResolveToolResponse { tool_call_id: id, status: "running".to_owned(), result: None },
        ),
        ApprovedCall::Returned(text) => Ok(
            ResolveToolResponse { tool_call_id: id, status: "done".to_owned(), result: Some(text) },
        ),
        ApprovedCall::Failed(e) => Err(ApiError::internal(e.as_str())),
    }
}

/// Which sessions are asked for.
#[derive(Debug)]
pub struct ListSessionsQuery {
    pub source: Option<String>,
    pub page: i64,
    pub per_page: i64,
}

#[derive(Debug)]
pub struct SessionIdPath {
    pub id: i64,
}

pub fn default_page() -> (r: i64)
    ensures
        r == 1,
{
    1
}

pub fn default_per_page() -> (r: i64)
    ensures
        r == 20,
{
    20
}

impl ListSessionsQuery {
    /// The page that is asked for, counted from one.
    pub open spec fn page_number(self) -> int {
        if self.page < 1 {
            1
        } else {
            self.page as int
        }
    }

    /// The number of sessions on a page, between one and a hundred.
    pub open spec fn page_size(self) -> int {
        if self.per_page < 1 {
            1
        } else if self.per_page > 100 {
            100
        } else {
            self.per_page as int
        }
    }

    /// The number of the page, the number of sessions on it, and the number of
    /// sessions before it. There is none where that number does not fit.
    pub fn window(&self) -> (r: Option<(i64, i64, i64)>)
        ensures
            match r {
                Some((page, per_page, offset)) => page == self.page_number() && per_page
                    == self.page_size() && offset == (page - 1) * per_page,
                None => (self.page_number() - 1) * self.page_size() > i64::MAX,
            },
    {
        let per_page: i64 = if self.per_page < 1 {
            1
        } else if self.per_page > 100 {
            100
        } else {
            self.per_page
        };
        let page: i64 = if self.page < 1 {
            1
        } else {
            self.page
        };
        match (page - 1).checked_mul(per_page) {
            Some(offset) => Some((page, per_page, offset)),
            None => {
                assert((page - 1) * per_page >= 0) by (nonlinear_arith)
                    requires
                        page >= 1,
                        per_page >= 1,
                ;
                None
            },
        }
    }
}

/// A session as listed.
#[derive(Debug)]
pub struct SessionRow {
    pub id: i64,
    pub source: String,
    pub agent_id: String,
    pub is_ephemeral: bool,
    pub is_interactive: bool,
    pub created_at: Option<String>,
    pub message_count: i64,
    pub last_message_at: Option<String>,
}

/// A session as listed.
pub open spec fn session_entry(s: SessionRow) -> JsonView {
    JsonView::Object(
        seq![
            ("id"@, JsonView::Number(decimal(s.id as int))),
            ("source"@, JsonView::Text(s.source@)),
            ("agent_id"@, JsonView::Text(s.agent_id@)),
            ("is_ephemeral"@, JsonView::Bool(s.is_ephemeral)),
            ("is_interactive"@, JsonView::Bool(s.is_interactive)),
            ("created_at"@, opt_json(opt_text(s.created_at))),
            ("message_count"@, JsonView::Number(decimal(s.message_count as int))),
            ("last_message_at"@, opt_json(opt_text(s.last_message_at))),
        ],
    )
}

/// A page of sessions.
pub open spec fn sessions_page(
    rows: Seq<SessionRow>,
    total: int,
    page: int,
    per_page: int,
) -> JsonView {
    JsonView::Object(
        seq![
            ("items"@, JsonView::Array(rows.map_values(|s: SessionRow| session_entry(s)))),
            ("total"@, JsonView::Number(decimal(total))),
            ("page"@, JsonView::Number(decimal(page))),
            ("per_page"@, JsonView::Number(decimal(per_page))),
        ],
    )
}

/// The answer to a request for a page of sessions.
pub fn list_sessions(rows: &Vec<SessionRow>, total: i64, page: i64, per_page: i64) -> (r: Json)
    ensures
        r@ == sessions_page(rows@, total as int, page as int, per_page as int),
{
    let ghost all = rows@.map_values(|s: SessionRow| session_entry(s));
    let mut out: Vec<Json> = Vec::new();
    let mut i: usize = 0;
    while i < rows.len()
        invariant
            i <= rows@.len(),
            all == rows@.map_values(|s: SessionRow| session_entry(s)),
            views(out@) == all.take(i as int),
        decreases rows@.len() - i,
    {
        let ghost had = views(out@);
        let s: &SessionRow = &rows[i];
        let b: ObjectBuilder = ObjectBuilder::new().with_i64("id", s.id).with_text(
            "source",
            s.source.as_str(),
        ).with_text("agent_id", s.agent_id.as_str()).with_bool(
            "is_ephemeral",
            s.is_ephemeral,
        ).with_bool("is_interactive", s.is_interactive).with_opt_text(
            "created_at",
            &s.created_at,
        ).with_i64("message_count", s.message_count).with_opt_text(
            "last_message_at",
            &s.last_message_at,
        );
        assert(b.entries() =~= session_entry(rows@[i as int])->Object_0);
        out.push(b.build());
        assert(views(out@) =~= had.push(all[i as int]));
        i = i + 1;
        assert(views(out@) =~= all.take(i as int));
    }
    assert(all.take(all.len() as int) =~= all);
    let b: ObjectBuilder = ObjectBuilder::new().with("items", json_array(out)).with_i64(
        "total",
        total,
    ).with_i64("page", page).with_i64("per_page", per_page);
    assert(b.entries() =~= sessions_page(
        rows@,
        total as int,
        page as int,
        per_page as int,
    )->Object_0);
    b.build()
}

/// A tool call with its labels.
#[derive(Debug)]
pub struct CallData {
    pub id: i64,
    pub name: String,
    pub arguments: Option<String>,
    pub status: String,
    pub result: Option<String>,
    pub label_short: String,
    pub label_full: String,
}

/// A message with its tool calls.
#[derive(Debug)]
pub struct MessageData {
    pub message: ChatMessage,
    pub calls: Vec<CallData>,
}

/// A stack frame of a session: the conversation of one agent.
#[derive(Debug)]
pub struct StackData {
    pub id: i64,
    pub agent_id: String,
    pub depth: i64,
    /// The tool call that started the agent; none for the root agent.
    pub parent_tool_call_id: Option<i64>,
    pub messages: Vec<MessageData>,
}

/// The frame that a tool call started; the last one where there are several.
pub open spec fn sub_of(stacks: Seq<StackData>, call_id: i64) -> Option<int>
    decreases stacks.len(),
{
    if stacks.len() == 0 {
        None
    } else if stacks.last().parent_tool_call_id == Some(call_id) {
        Some(stacks.len() - 1)
    } else {
        sub_of(stacks.drop_last(), call_id)
    }
}

proof fn lemma_sub_of(stacks: Seq<StackData>, call_id: i64)
    ensures
        match sub_of(stacks, call_id) {
            Some(j) => 0 <= j < stacks.len(),
            None => true,
        },
    decreases stacks.len(),
{
    if stacks.len() > 0 {
        lemma_sub_of(stacks.drop_last(), call_id);
    }
}

fn find_sub(stacks: &Vec<StackData>, call_id: i64) -> (r: Option<usize>)
    ensures
        match r {
            Some(j) => j < stacks@.len() && sub_of(stacks@, call_id) == Some(j as int),
            None => sub_of(stacks@, call_id) is None,
        },
{
    let mut i: usize = stacks.len();
    assert(stacks@.take(i as int) =~= stacks@);
    while i > 0
        invariant
            i <= stacks@.len(),
            sub_of(stacks@, call_id) == sub_of(stacks@.take(i as int), call_id),
        decreases i,
    {
        i = i - 1;
        assert(stacks@.take(i + 1).drop_last() =~= stacks@.take(i as int));
        match stacks[i].parent_tool_call_id {
            Some(p) => if p == call_id {
                return Some(i);
            },
            None => {},
        }
    }
    None
}

/// Whether each frame that a tool call started lies deeper than the frame of
/// the call.
pub open spec fn nested(stacks: Seq<StackData>) -> bool {
    forall|i: int, k: int, n: int|
        0 <= i < stacks.len() && 0 <= k < stacks[i].messages@.len() && 0 <= n
            < stacks[i].messages@[k].calls@.len() ==> lies_deeper(
            stacks,
            i,
            #[trigger] stacks[i].messages@[k].calls@[n].id,
        )
}

/// Whether the frame that a tool call of frame `i` started lies deeper.
pub open spec fn lies_deeper(stacks: Seq<StackData>, i: int, call_id: i64) -> bool {
    match sub_of(stacks, call_id) {
        Some(j) => stacks[j].depth > stacks[i].depth,
        None => true,
    }
}

/// Whether each frame that a tool call started lies deeper than the frame of
/// the call.
pub fn is_nested(stacks: &Vec<StackData>) -> (r: bool)
    ensures
        r == nested(stacks@),
{
    let mut i: usize = 0;
    while i < stacks.len()
        invariant
            i <= stacks@.len(),
            forall|a: int, k: int, n: int|
                0 <= a < i && 0 <= k < stacks@[a].messages@.len() && 0 <= n
                    < stacks@[a].messages@[k].calls@.len() ==> lies_deeper(
                    stacks@,
                    a,
                    #[trigger] stacks@[a].messages@[k].calls@[n].id,
                ),
        decreases stacks@.len() - i,
    {
        let messages: &Vec<MessageData> = &stacks[i].messages;
        let mut k: usize = 0;
        while k < messages.len()
            invariant
                i < stacks@.len(),
                *messages == stacks@[i as int].messages,
                k <= messages@.len(),
                forall|b: int, n: int|
                    0 <= b < k && 0 <= n < messages@[b].calls@.len() ==> lies_deeper(
                        stacks@,
                        i as int,
                        #[trigger] messages@[b].calls@[n].id,
                    ),
            decreases messages@.len() - k,
        {
            let calls: &Vec<CallData> = &messages[k].calls;
            let mut n: usize = 0;
            while n < calls.len()
                invariant
                    i < stacks@.len(),
                    *messages == stacks@[i as int].messages,
                    k < messages@.len(),
                    *calls == messages@[k as int].calls,
                    n <= calls@.len(),
                    forall|c: int|
                        0 <= c < n ==> lies_deeper(stacks@, i as int, #[trigger] calls@[c].id),
                decreases calls@.len() - n,
            {
                match find_sub(stacks, calls[n].id) {
                    Some(j) => if stacks[j].depth <= stacks[i].depth {
                        assert(!lies_deeper(
                            stacks@,
                            i as int,
                            stacks@[i as int].messages@[k as int].calls@[n as int].id,
                        ));
                        return false;
                    },
                    None => {},
                }
                n = n + 1;
            }
            k = k + 1;
        }
        i = i + 1;
    }
    true
}

/// The status, the result and the error with which a tool call is shown. One
/// that was running when its session was interrupted counts as interrupted.
pub open spec fn shown_outcome(status: Seq<char>, result: Option<Seq<char>>) -> (
    Seq<char>,
    Option<Seq<char>>,
    Option<Seq<char>>,
) {
    if status == "done"@ {
        ("done"@, result, None)
    } else if status == "pending"@ {
        ("pending"@, None, None)
    } else if status == "running"@ {
        ("error"@, None, Some("Interrupted."@))
    } else {
        ("error"@, None, result)
    }
}

/// A tool call that failed is shown with its own error: only one that was
/// running is called interrupted.
pub proof fn law_failures_keep_their_error(status: Seq<char>, result: Option<Seq<char>>)
    requires
        status != "running"@,
    ensures
        shown_outcome(status, result).2 is None || shown_outcome(status, result).2 == result,
{
}

/// The arguments of a tool call; `Null` where they are not JSON.
pub open spec fn shown_arguments(arguments: Option<Seq<char>>) -> JsonView {
    match arguments {
        Some(t) => match parsed_json(t) {
            Some(j) => j,
            None => JsonView::Null,
        },
        None => JsonView::Null,
    }
}

/// A tool call as shown.
pub open spec fn call_item(c: CallData) -> JsonView {
    let outcome = shown_outcome(c.status@, opt_text(c.result));
    JsonView::Object(
        seq![
            ("kind"@, JsonView::Text("tool"@)),
            ("tool_call_id"@, JsonView::Number(decimal(c.id as int))),
            ("name"@, JsonView::Text(c.name@)),
            ("label_short"@, JsonView::Text(c.label_short@)),
            ("label_full"@, JsonView::Text(c.label_full@)),
            ("arguments"@, shown_arguments(opt_text(c.arguments))),
            ("status"@, JsonView::Text(outcome.0)),
            ("result"@, opt_json(outcome.1)),
            ("error"@, opt_json(outcome.2)),
        ],
    )
}

pub fn call_json(c: &CallData) -> (r: Json)
    ensures
        r@ == call_item(*c),
{
    let arguments: Json = match &c.arguments {
        Some(t) => match parse_json(t.as_str()) {
            Some(j) => j,
            None => Json::Null,
        },
        None => Json::Null,
    };
    let s: &str = c.status.as_str();
    let (status, result, error): (&str, Option<String>, Option<String>) = if str_eq(s, "done") {
        ("done", copy_opt(&c.result), None)
    } else if str_eq(s, "pending") {
        ("pending", None, None)
    } else if str_eq(s, "running") {
        ("error", None, Some("Interrupted.".to_owned()))
    } else {
        ("error", None, copy_opt(&c.result))
    };
    let b: ObjectBuilder = ObjectBuilder::new().with_text("kind", "tool").with_i64(
        "tool_call_id",
        c.id,
    ).with_text("name", c.name.as_str()).with_text("label_short", c.label_short.as_str()).with_text(
        "label_full",
        c.label_full.as_str(),
    ).with("arguments", arguments).with_text("status", status).with_opt_text(
        "result",
        &result,
    ).with_opt_text("error", &error);
    assert(b.entries() =~= call_item(*c)->Object_0);
    b.build()
}

/// The start of a sub-agent's conversation.
pub open spec fn agent_item(s: StackData) -> JsonView {
    JsonView::Object(
        seq![
            ("kind"@, JsonView::Text("agent"@)),
            ("stack_id"@, JsonView::Number(decimal(s.id as int))),
            ("agent_id"@, JsonView::Text(s.agent_id@)),
            ("depth"@, JsonView::Number(decimal(s.depth as int))),
            ("done"@, JsonView::Bool(true)),
        ],
    )
}

/// The end of a sub-agent's conversation.
pub open spec fn agent_end_item(s: StackData) -> JsonView {
    JsonView::Object(
        seq![
            ("kind"@, JsonView::Text("agent_end"@)),
            ("agent_id"@, JsonView::Text(s.agent_id@)),
            ("depth"@, JsonView::Number(decimal(s.depth as int))),
        ],
    )
}

pub fn agent_json(s: &StackData) -> (r: Json)
    ensures
        r@ == agent_item(*s),
{
    let b: ObjectBuilder = ObjectBuilder::new().with_text("kind", "agent").with_i64(
        "stack_id",
        s.id,
    ).with_text("agent_id", s.agent_id.as_str()).with_i64("depth", s.depth).with_bool("done", true);
    assert(b.entries() =~= agent_item(*s)->Object_0);
    b.build()
}

pub fn agent_end_json(s: &StackData) -> (r: Json)
    ensures
        r@ == agent_end_item(*s),
{
    let b: ObjectBuilder = ObjectBuilder::new().with_text("kind", "agent_end").with_text(
        "agent_id",
        s.agent_id.as_str(),
    ).with_i64("depth", s.depth);
    assert(b.entries() =~= agent_end_item(*s)->Object_0);
    b.build()
}

/// Whether a message failed.
pub open spec fn is_failed(m: ChatMessage) -> bool {
    m.status@ == "failed"@
}

/// A user's message as shown; the debug view tells more of it.
pub open spec fn user_item(m: ChatMessage, debug: bool) -> JsonView {
    let base = seq![
        ("kind"@, JsonView::Text("user"@)),
        ("content"@, JsonView::Text(m.content@)),
        ("failed"@, JsonView::Bool(is_failed(m))),
    ];
    JsonView::Object(
        if debug {
            base.push(("is_synthetic"@, JsonView::Bool(m.is_synthetic))).push(
                ("created_at"@, opt_json(opt_text(m.created_at))),
            )
        } else {
            base
        },
    )
}

/// The fields that an answer and a thought of the model share.
pub open spec fn answer_fields(
    base: Seq<(Seq<char>, JsonView)>,
    m: ChatMessage,
    debug: bool,
) -> Seq<(Seq<char>, JsonView)> {
    let said = base.push(("content"@, JsonView::Text(m.content@)));
    let thought = if debug {
        said.push(("reasoning"@, opt_json(opt_text(m.reasoning_content))))
    } else {
        said
    };
    let counted = thought.push(("failed"@, JsonView::Bool(is_failed(m)))).push(
        ("input_tokens"@, opt_number(m.input_tokens)),
    ).push(("output_tokens"@, opt_number(m.output_tokens)));
    if debug {
        counted.push(("created_at"@, opt_json(opt_text(m.created_at))))
    } else {
        counted
    }
}

/// An answer of the model as shown.
pub open spec fn assistant_item(m: ChatMessage, debug: bool) -> JsonView {
    JsonView::Object(answer_fields(seq![("kind"@, JsonView::Text("assistant"@))], m, debug))
}

/// What the model said beside its tool calls.
pub open spec fn thinking_item(m: ChatMessage, debug: bool) -> JsonView {
    JsonView::Object(
        answer_fields(
            seq![
                ("kind"@, JsonView::Text("thinking"@)),
                ("message_id"@, JsonView::Number(decimal(m.id as int))),
            ],
            m,
            debug,
        ),
    )
}

/// Whether the model said anything beside its tool calls.
pub open spec fn says_something(m: ChatMessage, debug: bool) -> bool {
    trimmed(m.content@).len() > 0 || (debug && m.reasoning_content is Some)
}

/// A message as shown, given how its tool calls are shown. Messages that no
/// user typed are shown in the debug view alone.
pub open spec fn shown_message(d: MessageData, debug: bool, calls: Seq<JsonView>) -> Seq<JsonView> {
    let m = d.message;
    match m.role {
        Role::User => if m.is_synthetic && !debug {
            Seq::empty()
        } else {
            seq![user_item(m, debug)]
        },
        Role::Agent => Seq::empty(),
        Role::Assistant => if d.calls@.len() == 0 {
            seq![assistant_item(m, debug)]
        } else if says_something(m, debug) {
            seq![thinking_item(m, debug)] + calls
        } else {
            calls
        },
    }
}

/// How deep below the deepest possible frame a frame lies.
pub open spec fn height(stacks: Seq<StackData>, i: int) -> nat {
    (i64::MAX - stacks[i].depth) as nat
}

/// The first `m` messages of frame `i` as shown, each tool call followed by
/// the conversation of the agent that it started.
pub open spec fn message_items(stacks: Seq<StackData>, i: int, m: nat, debug: bool) -> Seq<JsonView>
    decreases height(stacks, i), m, 0nat,
{
    if m == 0 {
        Seq::empty()
    } else {
        let d = stacks[i].messages@[m - 1];
        message_items(stacks, i, (m - 1) as nat, debug) + shown_message(
            d,
            debug,
            call_items(stacks, i, (m - 1) as nat, d.calls@.len(), debug),
        )
    }
}

/// The first `n` tool calls of message `k` of frame `i` as shown.
pub open spec fn call_items(stacks: Seq<StackData>, i: int, k: nat, n: nat, debug: bool) -> Seq<
    JsonView,
>
    decreases height(stacks, i), k, n,
{
    if n == 0 {
        Seq::empty()
    } else {
        let c = stacks[i].messages@[k as int].calls@[n - 1];
        let own = call_items(stacks, i, k, (n - 1) as nat, debug).push(call_item(c));
        match sub_of(stacks, c.id) {
            Some(j) => if height(stacks, j) < height(stacks, i) {
                own.push(agent_item(stacks[j])) + message_items(
                    stacks,
                    j,
                    stacks[j].messages@.len(),
                    debug,
                ).push(agent_end_item(stacks[j]))
            } else {
                own
            },
            None => own,
        }
    }
}

/// Everything of frame `i` as shown.
pub open spec fn stack_items(stacks: Seq<StackData>, i: int, debug: bool) -> Seq<JsonView> {
    message_items(stacks, i, stacks[i].messages@.len(), debug)
}

pub fn user_json(m: &ChatMessage, debug: bool) -> (r: Json)
    ensures
        r@ == user_item(*m, debug),
{
    let failed: bool = str_eq(m.status.as_str(), "failed");
    let b: ObjectBuilder = ObjectBuilder::new().with_text("kind", "user").with_text(
        "content",
        m.content.as_str(),
    ).with_bool("failed", failed);
    if debug {
        let b: ObjectBuilder = b.with_bool("is_synthetic", m.is_synthetic).with_opt_text(
            "created_at",
            &m.created_at,
        );
        assert(b.entries() =~= user_item(*m, debug)->Object_0);
        b.build()
    } else {
        assert(b.entries() =~= user_item(*m, debug)->Object_0);
        b.build()
    }
}

fn with_answer(b: ObjectBuilder, m: &ChatMessage, debug: bool) -> (r: ObjectBuilder)
    ensures
        r.entries() == answer_fields(b.entries(), *m, debug),
{
    let failed: bool = str_eq(m.status.as_str(), "failed");
    let said: ObjectBuilder = b.with_text("content", m.content.as_str());
    let thought: ObjectBuilder = if debug {
        said.with_opt_text("reasoning", &m.reasoning_content)
    } else {
        said
    };
    let counted: ObjectBuilder = thought.with_bool("failed", failed).with_opt_i64(
        "input_tokens",
        m.input_tokens,
    ).with_opt_i64("output_tokens", m.output_tokens);
    if debug {
        counted.with_opt_text("created_at", &m.created_at)
    } else {
        counted
    }
}

pub fn assistant_json(m: &ChatMessage, debug: bool) -> (r: Json)
    ensures
        r@ == assistant_item(*m, debug),
{
    let b: ObjectBuilder = ObjectBuilder::new().with_text("kind", "assistant");
    assert(b.entries() =~= seq![("kind"@, JsonView::Text("assistant"@))]);
    with_answer(b, m, debug).build()
}

pub fn thinking_json(m: &ChatMessage, debug: bool) -> (r: Json)
    ensures
        r@ == thinking_item(*m, debug),
{
    let b: ObjectBuilder = ObjectBuilder::new().with_text("kind", "thinking").with_i64(
        "message_id",
        m.id,
    );
    assert(b.entries() =~= seq![
        ("kind"@, JsonView::Text("thinking"@)),
        ("message_id"@, JsonView::Number(decimal(m.id as int))),
    ]);
    with_answer(b, m, debug).build()
}

fn push_item(out: &mut Vec<Json>, item: Json)
    ensures
        views(final(out)@) == views(old(out)@).push(item@),
{
    let ghost had = views(out@);
    out.push(item);
    assert(views(out@) =~= had.push(item@));
}

fn push_messages(stacks: &Vec<StackData>, i: usize, debug: bool, out: &mut Vec<Json>)
    requires
        i < stacks@.len(),
        nested(stacks@),
    ensures
        views(final(out)@) == views(old(out)@) + stack_items(stacks@, i as int, debug),
    decreases height(stacks@, i as int), 1nat,
{
    let ghost had = views(out@);
    let count: usize = stacks[i].messages.len();
    let mut k: usize = 0;
    assert(had + message_items(stacks@, i as int, 0, debug) =~= had);
    while k < count
        invariant
            i < stacks@.len(),
            nested(stacks@),
            count == stacks@[i as int].messages@.len(),
            k <= count,
            views(out@) == had + message_items(stacks@, i as int, k as nat, debug),
        decreases count - k,
    {
        let d: &MessageData = &stacks[i].messages[k];
        let m: &ChatMessage = &d.message;
        let ghost before = views(out@);
        let ghost calls = call_items(stacks@, i as int, k as nat, d.calls@.len(), debug);
        match m.role {
            Role::User => {
                if !m.is_synthetic || debug {
                    push_item(out, user_json(m, debug));
                    assert(views(out@) =~= before + shown_message(*d, debug, calls));
                } else {
                    assert(views(out@) =~= before + shown_message(*d, debug, calls));
                }
            },
            Role::Agent => {
                assert(views(out@) =~= before + shown_message(*d, debug, calls));
            },
            Role::Assistant => {
                if d.calls.len() == 0 {
                    push_item(out, assistant_json(m, debug));
                    assert(views(out@) =~= before + shown_message(*d, debug, calls));
                } else {
                    let said: String = trim(m.content.as_str());
                    if said.as_str().unicode_len() > 0 || (debug && m.reasoning_content.is_some()) {
                        push_item(out, thinking_json(m, debug));
                    }
                    push_calls(stacks, i, k, debug, out);
                    assert(views(out@) =~= before + shown_message(*d, debug, calls));
                }
            },
        }
        k = k + 1;
        assert(views(out@) =~= had + message_items(stacks@, i as int, k as nat, debug));
    }
}

fn push_calls(stacks: &Vec<StackData>, i: usize, k: usize, debug: bool, out: &mut Vec<Json>)
    requires
        i < stacks@.len(),
        k < stacks@[i as int].messages@.len(),
        nested(stacks@),
    ensures
        views(final(out)@) == views(old(out)@) + call_items(
            stacks@,
            i as int,
            k as nat,
            stacks@[i as int].messages@[k as int].calls@.len(),
            debug,
        ),
    decreases height(stacks@, i as int), 0nat,
{
    let ghost had = views(out@);
    let count: usize = stacks[i].messages[k].calls.len();
    let mut n: usize = 0;
    assert(had + call_items(stacks@, i as int, k as nat, 0, debug) =~= had);
    while n < count
        invariant
            i < stacks@.len(),
            k < stacks@[i as int].messages@.len(),
            nested(stacks@),
            count == stacks@[i as int].messages@[k as int].calls@.len(),
            n <= count,
            views(out@) == had + call_items(stacks@, i as int, k as nat, n as nat, debug),
        decreases count - n,
    {
        let c: &CallData = &stacks[i].messages[k].calls[n];
        let ghost before = call_items(stacks@, i as int, k as nat, n as nat, debug);
        assert(lies_deeper(
            stacks@,
            i as int,
            stacks@[i as int].messages@[k as int].calls@[n as int].id,
        ));
        push_item(out, call_json(c));
        assert(views(out@) =~= had + before.push(call_item(*c)));
        match find_sub(stacks, c.id) {
            Some(j) => {
                push_item(out, agent_json(&stacks[j]));
                push_messages(stacks, j, debug, out);
                push_item(out, agent_end_json(&stacks[j]));
                assert(views(out@) =~= had + call_items(
                    stacks@,
                    i as int,
                    k as nat,
                    (n + 1) as nat,
                    debug,
                ));
            },
            None => {
                assert(views(out@) =~= had + call_items(
                    stacks@,
                    i as int,
                    k as nat,
                    (n + 1) as nat,
                    debug,
                ));
            },
        }
        n = n + 1;
    }
}

/// The conversation of a frame as the chat shows it.
pub fn build_items(stacks: &Vec<StackData>, main: usize) -> (r: Vec<Json>)
    requires
        main < stacks@.len(),
        nested(stacks@),
    ensures
        views(r@) == stack_items(stacks@, main as int, false),
{
    let mut out: Vec<Json> = Vec::new();
    push_messages(stacks, main, false, &mut out);
    assert(views(out@) =~= stack_items(stacks@, main as int, false));
    out
}

/// The conversation of a frame as the debug view shows it: with the messages
/// that no user typed, and with the model's reasoning.
pub fn build_debug_items(stacks: &Vec<StackData>, main: usize) -> (r: Vec<Json>)
    requires
        main < stacks@.len(),
        nested(stacks@),
    ensures
        views(r@) == stack_items(stacks@, main as int, true),
{
    let mut out: Vec<Json> = Vec::new();
    push_messages(stacks, main, true, &mut out);
    assert(views(out@) =~= stack_items(stacks@, main as int, true));
    out
}

/// The first frame of the root agent.
pub open spec fn main_of(stacks: Seq<StackData>) -> Option<int>
    decreases stacks.len(),
{
    if stacks.len() == 0 {
        None
    } else {
        match main_of(stacks.drop_last()) {
            Some(i) => Some(i),
            None => if stacks.last().depth == 0 {
                Some(stacks.len() - 1)
            } else {
                None
            },
        }
    }
}

/// The first frame of the root agent.
pub fn main_stack(stacks: &Vec<StackData>) -> (r: Option<usize>)
    ensures
        match r {
            Some(i) => i < stacks@.len() && stacks@[i as int].depth == 0 && main_of(stacks@)
                == Some(i as int),
            None => main_of(stacks@) is None,
        },
{
    let mut i: usize = 0;
    while i < stacks.len()
        invariant
            i <= stacks@.len(),
            main_of(stacks@.take(i as int)) is None,
        decreases stacks@.len() - i,
    {
        assert(stacks@.take(i + 1).drop_last() =~= stacks@.take(i as int));
        if stacks[i].depth == 0 {
            proof {
                lemma_main_stays(stacks@, i + 1);
            }
            return Some(i);
        }
        i = i + 1;
    }
    assert(stacks@.take(stacks@.len() as int) =~= stacks@);
    None
}

proof fn lemma_main_stays(stacks: Seq<StackData>, k: int)
    requires
        0 <= k <= stacks.len(),
        main_of(stacks.take(k)) is Some,
    ensures
        main_of(stacks) == main_of(stacks.take(k)),
    decreases stacks.len(),
{
    if k < stacks.len() {
        assert(stacks.drop_last().take(k) =~= stacks.take(k));
        lemma_main_stays(stacks.drop_last(), k);
    } else {
        assert(stacks.take(k) =~= stacks);
    }
}

/// The messages of a source's active session; none where it has no
/// conversation.
pub fn messages_for_source(stacks: &Vec<StackData>) -> (r: Vec<Json>)
    requires
        nested(stacks@),
    ensures
        views(r@) == match main_of(stacks@) {
            Some(i) => stack_items(stacks@, i, false),
            None => Seq::empty(),
        },
{
    match main_stack(stacks) {
        Some(i) => build_items(stacks, i),
        None => {
            let v: Vec<Json> = Vec::new();
            assert(views(v@) =~= Seq::empty());
            v
        },
    }
}

/// A session's data in its detail view.
pub open spec fn session_info(s: SessionRow, has_stack: bool) -> JsonView {
    let base = seq![
        ("id"@, JsonView::Number(decimal(s.id as int))),
        ("source"@, JsonView::Text(s.source@)),
        ("agent_id"@, JsonView::Text(s.agent_id@)),
    ];
    let flagged = if has_stack {
        base.push(("is_interactive"@, JsonView::Bool(s.is_interactive))).push(
            ("is_ephemeral"@, JsonView::Bool(s.is_ephemeral)),
        )
    } else {
        base
    };
    JsonView::Object(flagged.push(("created_at"@, opt_json(opt_text(s.created_at)))))
}

/// The detail view of a session.
pub open spec fn session_detail(s: SessionRow, stacks: Seq<StackData>) -> JsonView {
    JsonView::Object(
        seq![
            ("session"@, session_info(s, main_of(stacks) is Some)),
            (
                "messages"@,
                JsonView::Array(
                    match main_of(stacks) {
                        Some(i) => stack_items(stacks, i, true),
                        None => Seq::empty(),
                    },
                ),
            ),
        ],
    )
}

/// The detail view of a session, if there is one.
pub fn get_session_detail(
    path: &SessionIdPath,
    session: &Option<SessionRow>,
    stacks: &Vec<StackData>,
) -> (r: Result<Json, ApiError>)
    requires
        nested(stacks@),
    ensures
        match *session {
            None => r matches Err(e) && e.is_not_found(
                "session "@ + decimal(path.id as int) + " not found"@,
            ),
            Some(s) => r matches Ok(j) && j@ == session_detail(s, stacks@),
        },
{
    let s: &SessionRow = match session {
        Some(s) => s,
        None => {
            let number: String = i64_text(path.id);
            let mut t: String = "session ".to_owned();
            t.append(number.as_str());
            t.append(" not found");
            return Err(ApiError::not_found(t.as_str()));
        },
    };
    let base: ObjectBuilder = ObjectBuilder::new().with_i64("id", s.id).with_text(
        "source",
        s.source.as_str(),
    ).with_text("agent_id", s.agent_id.as_str());
    let main: Option<usize> = main_stack(stacks);
    let has_stack: bool = main.is_some();
    let flagged: ObjectBuilder = if has_stack {
        base.with_bool("is_interactive", s.is_interactive).with_bool("is_ephemeral", s.is_ephemeral)
    } else {
        base
    };
    let info: ObjectBuilder = flagged.with_opt_text("created_at", &s.created_at);
    assert(info.entries() =~= session_info(*s, has_stack)->Object_0);
    let messages: Vec<Json> = match main {
        Some(i) => build_debug_items(stacks, i),
        None => {
            let v: Vec<Json> = Vec::new();
            assert(views(v@) =~= Seq::empty());
            v
        },
    };
    let b: ObjectBuilder = ObjectBuilder::new().with("session", info.build()).with(
        "messages",
        json_array(messages),
    );
    assert(b.entries() =~= session_detail(*s, stacks@)->Object_0);
    Ok(b.build())
}

/// Messages that no user typed appear in the debug view alone.
pub proof fn law_synthetic_messages_are_hidden(d: MessageData, calls: Seq<JsonView>)
    requires
        d.message.role == Role::User,
        d.message.is_synthetic,
    ensures
        shown_message(d, false, calls).len() == 0,
        shown_message(d, true, calls) == seq![user_item(d.message, true)],
{
}

/// An answer to a call counts where there is a session, the call is in it, and
/// it is still pending. A rejection is told as such, a restart is started at
/// once, and any other call is approved.
pub proof fn law_answers_to_calls(
    session: Option<i64>,
    call: &Option<StoredCall>,
    path: &ResolveToolPath,
    body: ResolveToolBody,
    r: Result<ResolveStep, ApiError>,
    note: &str,
    told: String,
)
    requires
        call_ensures(web_resolve_tool, (session, call, path, body), r),
        note@ == body.note@,
        call_ensures(ApprovalDecision::rejection_message, (note,), told),
    ensures
        r is Ok <==> session is Some && call is Some && call->Some_0.status@ == "pending"@,
        r matches Ok(step) ==> {
            &&& step is Reject <==> body.action@ == "reject"@
            &&& step is Restart <==> body.action@ != "reject"@ && call->Some_0.name@ == "restart"@
            &&& step matches ResolveStep::Reject(d, text) ==> text@ == told@ && d == (
            ApprovalDecision::Rejected { note: body.note })
            &&& step matches ResolveStep::Restart(t) ==> t@ == "Riavvio avviato."@
        },
        r matches Err(e) ==> e.status == 500 && e.message@ == if session is None {
            "no active web session"@
        } else if call is None {
            "tool_call_id "@ + decimal(path.tool_call_id as int)
                + " not found in current web session"@
        } else {
            "tool_call "@ + decimal(call->Some_0.id as int) + " is not pending (status: "@
                + call->Some_0.status@ + ")"@
        },
{
}

/// How an answered call stands.
pub proof fn law_states_of_answered_calls(id: i64, text: String, outcome: ApprovedCall, r: ResolveToolResponse, s: Result<ResolveToolResponse, ApiError>)
    requires
        call_ensures(rejected_response, (id, text), r),
        call_ensures(approved_response, (id, outcome), s),
    ensures
        r.tool_call_id == id && r.status@ == "failed"@ && r.result == Some(text),
        s is Err <==> outcome is Failed,
        s matches Ok(a) ==> a.tool_call_id == id,
        outcome is Live ==> s->Ok_0.status@ == "running"@ && s->Ok_0.result is None,
        outcome matches ApprovedCall::Returned(t) ==> s->Ok_0.status@ == "done"@ && s->Ok_0.result
            == Some(t),
        outcome matches ApprovedCall::Failed(e) ==> s->Err_0.status == 500 && s->Err_0.message@
            == e@,
{
}

/// A page holds between one and a hundred sessions and begins behind the pages
/// before it; a page below the first counts as the first.
pub proof fn law_pages_of_sessions(q: &ListSessionsQuery, r: Option<(i64, i64, i64)>)
    requires
        call_ensures(ListSessionsQuery::window, (q,), r),
    ensures
        r matches Some((page, size, offset)) ==> {
            &&& 1 <= size <= 100
            &&& 1 <= page
            &&& q.page >= 1 ==> page == q.page
            &&& q.page < 1 ==> page == 1
            &&& 1 <= q.per_page <= 100 ==> size == q.per_page
            &&& q.per_page < 1 ==> size == 1
            &&& q.per_page > 100 ==> size == 100
            &&& offset == (page - 1) * size
        },
        q.page <= 1 ==> r is Some,
{
    if q.page <= 1 {
        assert((q.page_number() - 1) * q.page_size() == 0) by (nonlinear_arith)
            requires
                q.page_number() == 1,
        ;
    }
}

/// A page of sessions: each session with what is known of it, and which page it
/// is.
pub proof fn law_listed_sessions(rows: &Vec<SessionRow>, total: i64, page: i64, per_page: i64, r: Json, i: int)
    requires
        call_ensures(list_sessions, (rows, total, page, per_page), r),
        0 <= i < rows@.len(),
    ensures
        r@ is Object && r@->Object_0.len() == 4,
        r@->Object_0[0].0 == "items"@ && r@->Object_0[0].1 is Array
            && r@->Object_0[0].1->Array_0.len() == rows@.len(),
        r@->Object_0[1] == ("total"@, JsonView::Number(decimal(total as int))),
        r@->Object_0[2] == ("page"@, JsonView::Number(decimal(page as int))),
        r@->Object_0[3] == ("per_page"@, JsonView::Number(decimal(per_page as int))),
        ({
            let s = rows@[i];
            let f = r@->Object_0[0].1->Array_0[i]->Object_0;
            &&& r@->Object_0[0].1->Array_0[i] is Object && f.len() == 8
            &&& f[0] == ("id"@, JsonView::Number(decimal(s.id as int)))
            &&& f[1] == ("source"@, JsonView::Text(s.source@))
            &&& f[2] == ("agent_id"@, JsonView::Text(s.agent_id@))
            &&& f[3] == ("is_ephemeral"@, JsonView::Bool(s.is_ephemeral))
            &&& f[4] == ("is_interactive"@, JsonView::Bool(s.is_interactive))
            &&& f[6] == ("message_count"@, JsonView::Number(decimal(s.message_count as int)))
            &&& f[5].0 == "created_at"@ && f[7].0 == "last_message_at"@
            &&& match s.created_at {
                Some(t) => f[5].1 == JsonView::Text(t@),
                None => f[5].1 == JsonView::Null,
            }
            &&& match s.last_message_at {
                Some(t) => f[7].1 == JsonView::Text(t@),
                None => f[7].1 == JsonView::Null,
            }
        }),
{
    let items = r@->Object_0[0].1->Array_0;
    assert(items[i] == session_entry(rows@[i]));
}

/// What is shown of a call: that it is done, with its result; pending, with
/// nothing; or in error, with the reason, which of one that was left running is
/// that it was interrupted.
pub proof fn law_shown_calls(c: &CallData, r: Json)
    requires
        call_ensures(call_json, (c,), r),
    ensures
        r@ is Object && r@->Object_0.len() == 9,
        r@->Object_0[0] == ("kind"@, JsonView::Text("tool"@)),
        r@->Object_0[1] == ("tool_call_id"@, JsonView::Number(decimal(c.id as int))),
        r@->Object_0[2] == ("name"@, JsonView::Text(c.name@)),
        r@->Object_0[6].0 == "status"@ && r@->Object_0[7].0 == "result"@ && r@->Object_0[8].0
            == "error"@,
        ({
            let status = r@->Object_0[6].1;
            let result = r@->Object_0[7].1;
            let error = r@->Object_0[8].1;
            let text = match c.result {
                Some(t) => JsonView::Text(t@),
                None => JsonView::Null,
            };
            &&& c.status@ == "done"@ ==> status == JsonView::Text("done"@) && result == text && error
                == JsonView::Null
            &&& c.status@ == "pending"@ ==> status == JsonView::Text("pending"@) && result
                == JsonView::Null && error == JsonView::Null
            &&& c.status@ == "running"@ ==> status == JsonView::Text("error"@) && result
                == JsonView::Null && error == JsonView::Text("Interrupted."@)
            &&& c.status@ != "done"@ && c.status@ != "pending"@ && c.status@ != "running"@ ==> status
                == JsonView::Text("error"@) && result == JsonView::Null && error == text
        }),
{
    reveal_strlit("done");
    reveal_strlit("pending");
    reveal_strlit("running");
    assert("done"@.len() == 4 && "pending"@.len() == 7 && "running"@.len() == 7);
    assert("pending"@[0] == 'p' && "running"@[0] == 'r');
}

proof fn lemma_sub_stack(stacks: Seq<StackData>, call_id: i64)
    ensures
        sub_of(stacks, call_id) is None <==> forall|j: int|
            0 <= j < stacks.len() ==> (#[trigger] stacks[j]).parent_tool_call_id != Some(call_id),
        sub_of(stacks, call_id) matches Some(j) ==> 0 <= j < stacks.len()
            && stacks[j].parent_tool_call_id == Some(call_id),
    decreases stacks.len(),
{
    if stacks.len() > 0 && stacks.last().parent_tool_call_id != Some(call_id) {
        let rest = stacks.drop_last();
        lemma_sub_stack(rest, call_id);
        assert forall|j: int| 0 <= j < rest.len() implies rest[j] == #[trigger] stacks[j] by {}
        if sub_of(rest, call_id) is None {
            assert forall|j: int| 0 <= j < stacks.len() implies (
            #[trigger] stacks[j]).parent_tool_call_id != Some(call_id) by {
                if j < rest.len() {
                    assert(rest[j].parent_tool_call_id != Some(call_id));
                }
            }
        }
    } else if stacks.len() > 0 {
        assert(stacks[stacks.len() - 1].parent_tool_call_id == Some(call_id));
    }
}

/// A conversation is shown message by message: adding a message adds what is
/// shown of it behind the rest. A user's message is shown unless it is
/// synthetic; one to an agent is not; an assistant's without calls is.
pub proof fn law_conversations_are_shown(
    stacks: &Vec<StackData>,
    more: &Vec<StackData>,
    d: MessageData,
    a: StackData,
    b: StackData,
    r: Vec<Json>,
    s: Vec<Json>,
    user: Json,
    assistant: Json,
)
    requires
        call_ensures(build_items, (stacks, 0usize), r),
        call_ensures(build_items, (more, 0usize), s),
        stacks@ == seq![a],
        more@ == seq![b],
        b.messages@ == a.messages@.push(d),
        d.calls@.len() == 0,
        forall|k: int|
            0 <= k < a.messages@.len() ==> (#[trigger] a.messages@[k]).calls@.len() == 0,
        call_ensures(user_json, (&d.message, false), user),
        call_ensures(assistant_json, (&d.message, false), assistant),
    ensures
        a.messages@.len() == 0 ==> r@.len() == 0,
        views(s@) == match d.message.role {
            Role::User => if d.message.is_synthetic {
                views(r@)
            } else {
                views(r@).push(user@)
            },
            Role::Agent => views(r@),
            Role::Assistant => views(r@).push(assistant@),
        },
{
    let n = a.messages@.len();
    lemma_same_messages(stacks@, more@, n);
    let before = message_items(more@, 0, n, false);
    assert(more@[0].messages@[n as int] == d);
    assert(message_items(more@, 0, n + 1, false) == before + shown_message(
        d,
        false,
        call_items(more@, 0, n, 0, false),
    ));
    assert(views(s@) =~= match d.message.role {
        Role::User => if d.message.is_synthetic {
            before
        } else {
            before.push(user@)
        },
        Role::Agent => before,
        Role::Assistant => before.push(assistant@),
    });
    assert(views(r@).len() == r@.len());
}

proof fn lemma_same_messages(a: Seq<StackData>, b: Seq<StackData>, n: nat)
    requires
        a.len() == 1,
        b.len() == 1,
        n <= a[0].messages@.len(),
        n <= b[0].messages@.len(),
        forall|k: int| 0 <= k < n ==> a[0].messages@[k] == #[trigger] b[0].messages@[k],
        forall|k: int| 0 <= k < n ==> (#[trigger] b[0].messages@[k]).calls@.len() == 0,
    ensures
        message_items(a, 0, n, false) == message_items(b, 0, n, false),
    decreases n,
{
    if n > 0 {
        lemma_same_messages(a, b, (n - 1) as nat);
        let k = (n - 1) as nat;
        assert(b[0].messages@[k as int].calls@.len() == 0);
        assert(a[0].messages@[k as int] == b[0].messages@[k as int]);
        assert(call_items(a, 0, k, 0, false) =~= call_items(b, 0, k, 0, false));
    }
}

/// What is shown of a user's message and of an assistant's: what was said and
/// whether it failed, and of the assistant's what it cost. More is shown to who
/// looks behind the scenes.
pub proof fn law_shown_messages(m: &ChatMessage, user: Json, user_debug: Json, assistant: Json, thinking: Json)
    requires
        call_ensures(user_json, (m, false), user),
        call_ensures(user_json, (m, true), user_debug),
        call_ensures(assistant_json, (m, false), assistant),
        call_ensures(thinking_json, (m, false), thinking),
    ensures
        user@ == JsonView::Object(
            seq![
                ("kind"@, JsonView::Text("user"@)),
                ("content"@, JsonView::Text(m.content@)),
                ("failed"@, JsonView::Bool(m.status@ == "failed"@)),
            ],
        ),
        user_debug@ is Object && user_debug@->Object_0.len() == 5
            && user_debug@->Object_0.take(3) == user@->Object_0 && user_debug@->Object_0[3] == (
            "is_synthetic"@,
            JsonView::Bool(m.is_synthetic),
        ),
        assistant@ is Object && assistant@->Object_0.len() == 5,
        assistant@->Object_0[0] == ("kind"@, JsonView::Text("assistant"@)),
        assistant@->Object_0[1] == ("content"@, JsonView::Text(m.content@)),
        assistant@->Object_0[2] == ("failed"@, JsonView::Bool(m.status@ == "failed"@)),
        assistant@->Object_0[3].0 == "input_tokens"@ && assistant@->Object_0[4].0
            == "output_tokens"@,
        match m.input_tokens {
            Some(n) => assistant@->Object_0[3].1 == JsonView::Number(decimal(n as int)),
            None => assistant@->Object_0[3].1 == JsonView::Null,
        },
        match m.output_tokens {
            Some(n) => assistant@->Object_0[4].1 == JsonView::Number(decimal(n as int)),
            None => assistant@->Object_0[4].1 == JsonView::Null,
        },
        thinking@ is Object && thinking@->Object_0.len() == 6,
        thinking@->Object_0[0] == ("kind"@, JsonView::Text("thinking"@)),
        thinking@->Object_0[1] == ("message_id"@, JsonView::Number(decimal(m.id as int))),
        thinking@->Object_0.skip(2) == assistant@->Object_0.skip(1),
{
    let u = user@->Object_0;
    assert(user_debug@->Object_0.take(3) =~= u);
    assert(thinking@->Object_0.skip(2) =~= assistant@->Object_0.skip(1));
}

proof fn lemma_main_of(stacks: Seq<StackData>)
    ensures
        main_of(stacks) is None <==> forall|i: int|
            0 <= i < stacks.len() ==> (#[trigger] stacks[i]).depth != 0,
        main_of(stacks) matches Some(i) ==> 0 <= i < stacks.len() && stacks[i].depth == 0
            && forall|k: int| 0 <= k < i ==> (#[trigger] stacks[k]).depth != 0,
    decreases stacks.len(),
{
    if stacks.len() > 0 {
        let rest = stacks.drop_last();
        lemma_main_of(rest);
        assert forall|k: int| 0 <= k < rest.len() implies rest[k] == #[trigger] stacks[k] by {}
        if main_of(rest) is None {
            assert forall|k: int| 0 <= k < rest.len() implies (#[trigger] stacks[k]).depth != 0 by {
                assert(rest[k].depth != 0);
            }
            assert(stacks[stacks.len() - 1] == stacks.last());
        } else {
            let i = main_of(rest)->Some_0;
            assert(stacks[i].depth == 0);
            assert forall|k: int| 0 <= k < i implies (#[trigger] stacks[k]).depth != 0 by {
                assert(rest[k].depth != 0);
            }
        }
    }
}

/// The conversation itself is the first stack at depth zero; what a source shows
/// is that conversation, or nothing.
pub proof fn law_the_main_stack(stacks: &Vec<StackData>, r: Option<usize>, shown: Vec<Json>, items: Vec<Json>)
    requires
        call_ensures(main_stack, (stacks,), r),
        call_ensures(messages_for_source, (stacks,), shown),
        r matches Some(i) ==> call_ensures(build_items, (stacks, i), items),
    ensures
        r is None <==> forall|i: int|
            0 <= i < stacks@.len() ==> (#[trigger] stacks@[i]).depth != 0,
        r matches Some(i) ==> i < stacks@.len() && stacks@[i as int].depth == 0 && forall|k: int|
            0 <= k < i ==> (#[trigger] stacks@[k]).depth != 0,
        r is None ==> shown@.len() == 0,
        r is Some ==> views(shown@) == views(items@),
{
    lemma_main_of(stacks@);
    assert(views(shown@).len() == shown@.len());
}

/// A session that is not there is told so; one that is shows what it is and its
/// conversation.
pub proof fn law_details_of_a_session(
    path: &SessionIdPath,
    session: &Option<SessionRow>,
    stacks: &Vec<StackData>,
    r: Result<Json, ApiError>,
    main: Option<usize>,
    items: Vec<Json>,
)
    requires
        call_ensures(get_session_detail, (path, session, stacks), r),
        call_ensures(main_stack, (stacks,), main),
        main matches Some(i) ==> call_ensures(build_debug_items, (stacks, i), items),
    ensures
        r is Ok <==> session is Some,
        r matches Err(e) ==> e.status == 404 && e.message@ == "session "@ + decimal(path.id as int)
            + " not found"@,
        r matches Ok(j) ==> j@ is Object && j@->Object_0.len() == 2 && j@->Object_0[0].0
            == "session"@ && j@->Object_0[1].0 == "messages"@ && j@->Object_0[1].1
            == JsonView::Array(
            if main is Some {
                views(items@)
            } else {
                Seq::empty()
            },
        ) && j@->Object_0[0].1->Object_0[0] == (
            "id"@,
            JsonView::Number(decimal(session->Some_0.id as int)),
        ) && j@->Object_0[0].1->Object_0[1] == ("source"@, JsonView::Text(session->Some_0.source@))
            && j@->Object_0[0].1->Object_0[2] == (
            "agent_id"@,
            JsonView::Text(session->Some_0.agent_id@),
        ),
{
}

/// A call is shown behind what the assistant said, where it said something; the
/// work of a sub-agent that the call started follows it, between its beginning
/// and its end.
pub proof fn law_calls_are_shown(
    stacks: &Vec<StackData>,
    a: StackData,
    b: StackData,
    r: Vec<Json>,
    sub: Vec<Json>,
    call: Json,
    begin: Json,
    end: Json,
    thinking: Json,
    text: &str,
    said: String,
)
    requires
        call_ensures(build_items, (stacks, 0usize), r),
        call_ensures(build_items, (stacks, 1usize), sub),
        stacks@ == seq![a, b],
        b.depth > a.depth,
        a.messages@.len() == 1,
        a.messages@[0].message.role is Assistant,
        a.messages@[0].calls@.len() == 1,
        a.parent_tool_call_id != Some(a.messages@[0].calls@[0].id),
        call_ensures(call_json, (&a.messages@[0].calls@[0],), call),
        call_ensures(agent_json, (&b,), begin),
        call_ensures(agent_end_json, (&b,), end),
        call_ensures(thinking_json, (&a.messages@[0].message, false), thinking),
        text@ == a.messages@[0].message.content@,
        call_ensures(trim, (text,), said),
    ensures
        ({
            let lead = if said@.len() > 0 {
                seq![thinking@]
            } else {
                Seq::empty()
            };
            views(r@) == if b.parent_tool_call_id == Some(a.messages@[0].calls@[0].id) {
                lead + (seq![call@, begin@] + views(sub@) + seq![end@])
            } else {
                lead + seq![call@]
            }
        }),
{
    let all = stacks@;
    let c = a.messages@[0].calls@[0];
    let d = a.messages@[0];
    lemma_sub_stack(all, c.id);
    assert(all[0] == a && all[1] == b);
    assert(call_items(all, 0, 0, 0, false) =~= Seq::<JsonView>::empty());
    let own = Seq::<JsonView>::empty().push(call_item(c));
    assert(message_items(all, 0, 0, false) =~= Seq::<JsonView>::empty());
    let shown = call_items(all, 0, 0, 1, false);
    assert(message_items(all, 0, 1, false) =~= shown_message(d, false, shown));
    if b.parent_tool_call_id == Some(c.id) {
        assert(sub_of(all, c.id) == Some(1int));
        assert(height(all, 1) < height(all, 0));
        assert(shown =~= seq![call@, begin@] + views(sub@) + seq![end@]);
    } else {
        assert(sub_of(all, c.id) is None);
        assert(shown =~= seq![call@]);
    }
    assert(says_something(d.message, false) == (said@.len() > 0));
}

/// What holds where a request leaves it out.
pub proof fn law_defaults(source: String, page: i64, size: i64)
    requires
        call_ensures(default_source, (), source),
        call_ensures(default_page, (), page),
        call_ensures(default_per_page, (), size),
    ensures
        source@ == "web"@ && page == 1 && size == 20,
{
}

/// Conversations are nested properly where each stack that a call started lies
/// deeper than the one that the call stands in.
pub proof fn law_nested_conversations(stacks: &Vec<StackData>, r: bool, i: int, k: int, n: int, j: int)
    requires
        call_ensures(is_nested, (stacks,), r),
        0 <= i < stacks@.len(),
        0 <= k < stacks@[i].messages@.len(),
        0 <= n < stacks@[i].messages@[k].calls@.len(),
        0 <= j < stacks@.len(),
        stacks@[j].parent_tool_call_id == Some(stacks@[i].messages@[k].calls@[n].id),
        forall|m: int|
            j < m < stacks@.len() ==> (#[trigger] stacks@[m]).parent_tool_call_id != Some(
                stacks@[i].messages@[k].calls@[n].id,
            ),
        stacks@[j].depth <= stacks@[i].depth,
    ensures
        !r,
{
    let id = stacks@[i].messages@[k].calls@[n].id;
    lemma_sub_stack(stacks@, id);
    lemma_last_sub(stacks@, id, j);
    assert(!lies_deeper(stacks@, i, id));
}

proof fn lemma_last_sub(stacks: Seq<StackData>, id: i64, j: int)
    requires
        0 <= j < stacks.len(),
        stacks[j].parent_tool_call_id == Some(id),
        forall|m: int|
            j < m < stacks.len() ==> (#[trigger] stacks[m]).parent_tool_call_id != Some(id),
    ensures
        sub_of(stacks, id) == Some(j),
    decreases stacks.len(),
{
    if j < stacks.len() - 1 {
        assert(stacks[stacks.len() - 1].parent_tool_call_id != Some(id));
        let rest = stacks.drop_last();
        assert forall|m: int| j < m < rest.len() implies (#[trigger] rest[m]).parent_tool_call_id
            != Some(id) by {
            assert(stacks[m].parent_tool_call_id != Some(id));
        }
        lemma_last_sub(rest, id, j);
    }
}

} // verus!
