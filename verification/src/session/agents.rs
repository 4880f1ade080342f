//! Sub-agents: which calls are accepted, how deep they nest, and which tools
//! an agent is offered.
use vstd::prelude::*;

use crate::approval::rules::{first_tool_action, is_tool_visible, ApprovalRule, RuleAction};
use crate::bytes::{
    byte_len, byte_prefix, cut_to, is_longest_within, lemma_byte_prefix, lemma_one_longest,
    text_bytes,
};
use crate::events::ServerEvent;
use crate::json::{text_items, texts_among, Json, JsonView};
use crate::text::{contains_item, copy_texts, lemma_filter_last, opt_text, str_eq, texts};

verus! {

broadcast use vstd::seq_lib::group_seq_properties;

/// How deep agents may nest.
pub const MAX_AGENT_DEPTH: i64 = 5;

/// How many bytes of a prompt or a result a preview shows.
pub const PREVIEW_BYTES: usize = 500;

/// The beginning of a long text, with an ellipsis; a short text as it is.
pub open spec fn preview_of(s: Seq<char>) -> Seq<char> {
    if text_bytes(s) > PREVIEW_BYTES {
        byte_prefix(s, PREVIEW_BYTES as int) + "…"@
    } else {
        s
    }
}

/// The preview of a prompt or a result.
pub fn preview(s: &str) -> (r: String)
    ensures
        r@ == preview_of(s@),
{
    if byte_len(s) > PREVIEW_BYTES {
        let mut out: String = cut_to(s, PREVIEW_BYTES);
        out.append("…");
        out
    } else {
        s.to_owned()
    }
}

/// A request to run a sub-agent.
#[derive(Debug)]
pub struct AgentRequest {
    pub target: String,
    pub prompt: String,
    /// The model client named in the call.
    pub client: Option<String>,
}

/// Why the arguments of a `call_agent` are refused, if they are.
pub open spec fn call_agent_refusal(args: JsonView, parent: Seq<char>) -> Option<Seq<char>> {
    match args.field("agent_id"@).as_text() {
        None => Some("call_agent: missing required argument `agent_id`"@),
        Some(target) => if args.field("prompt"@).as_text() is None {
            Some("call_agent: missing required argument `prompt`"@)
        } else if target == parent {
            Some("call_agent: an agent cannot call itself (`"@ + target + "`)"@)
        } else if target == "main"@ {
            Some(
                "call_agent: the `main` agent is the root entry point and cannot be invoked as a sub-agent"@,
            )
        } else {
            None
        },
    }
}

/// Checks the arguments of a `call_agent`: an agent can call neither itself
/// nor the main agent.
pub fn call_agent_request(args: &Json, parent_agent: &str) -> (r: Result<AgentRequest, String>)
    ensures
        match r {
            Ok(q) => {
                &&& call_agent_refusal(args@, parent_agent@) is None
                &&& args@.field("agent_id"@).as_text() == Some(q.target@)
                &&& args@.field("prompt"@).as_text() == Some(q.prompt@)
                &&& opt_text(q.client) == args@.field("client"@).as_text()
            },
            Err(e) => call_agent_refusal(args@, parent_agent@) == Some(e@),
        },
{
    let target: String = match args.text_field("agent_id") {
        Some(t) => t,
        None => {
            return Err("call_agent: missing required argument `agent_id`".to_owned());
        },
    };
    let prompt: String = match args.text_field("prompt") {
        Some(p) => p,
        None => {
            return Err("call_agent: missing required argument `prompt`".to_owned());
        },
    };
    if str_eq(target.as_str(), parent_agent) {
        let mut e: String = "call_agent: an agent cannot call itself (`".to_owned();
        e.append(target.as_str());
        e.append("`)");
        return Err(e);
    }
    if str_eq(target.as_str(), "main") {
        return Err(
            "call_agent: the `main` agent is the root entry point and cannot be invoked as a sub-agent".to_owned(),
        );
    }
    let client: Option<String> = args.text_field("client");
    Ok(AgentRequest { target, prompt, client })
}

/// Checks the agent that is called: it has to be known, and no system agent.
/// `missing` says why it could not be loaded.
pub fn call_agent_target(target: &str, missing: Option<&str>, is_system_agent: bool) -> (r: Result<
    (),
    String,
>)
    ensures
        match r {
            Ok(_) => missing is None && !is_system_agent,
            Err(e) => match missing {
                Some(why) => e@ == "call_agent: agent `"@ + target@ + "` not found: "@ + why@,
                None => is_system_agent && e@ == "call_agent: agent `"@ + target@
                    + "` is a system agent and cannot be invoked via call_agent"@,
            },
        },
{
    match missing {
        Some(why) => {
            let mut e: String = "call_agent: agent `".to_owned();
            e.append(target);
            e.append("` not found: ");
            e.append(why);
            Err(e)
        },
        None => if is_system_agent {
            let mut e: String = "call_agent: agent `".to_owned();
            e.append(target);
            e.append("` is a system agent and cannot be invoked via call_agent");
            Err(e)
        } else {
            Ok(())
        },
    }
}

/// The depth at which a sub-agent runs: one below its parent's, within the
/// limit. `None` stands for a parent frame that was not found.
pub fn call_agent_depth(parent_depth: Option<i64>) -> (r: Result<i64, String>)
    requires
        parent_depth matches Some(d) ==> d < i64::MAX,
    ensures
        match r {
            Ok(n) => parent_depth matches Some(d) && n == d + 1 && n <= MAX_AGENT_DEPTH,
            Err(e) => match parent_depth {
                None => e@ == "call_agent: parent stack frame not found"@,
                Some(d) => d + 1 > MAX_AGENT_DEPTH && e@
                    == "call_agent: maximum agent depth (5) exceeded — refusing to recurse further"@,
            },
        },
{
    match parent_depth {
        None => Err("call_agent: parent stack frame not found".to_owned()),
        Some(d) => {
            let depth: i64 = d + 1;
            if depth > MAX_AGENT_DEPTH {
                Err(
                    "call_agent: maximum agent depth (5) exceeded — refusing to recurse further".to_owned(),
                )
            } else {
                Ok(depth)
            }
        },
    }
}

/// The model client of a sub-agent: the one named in the call, else the one
/// configured for the agent.
pub fn explicit_client(called: Option<String>, configured: Option<String>) -> (r: Option<String>)
    ensures
        r == match called {
            Some(c) => Some(c),
            None => configured,
        },
{
    match called {
        Some(c) => Some(c),
        None => configured,
    }
}

/// What is known of an agent that is called.
#[derive(Debug)]
pub struct AgentMeta {
    pub is_system_agent: bool,
    /// The model client configured for the agent.
    pub client: Option<String>,
}

/// A sub-agent to run.
#[derive(Debug)]
pub struct SubAgentPlan {
    pub target: String,
    pub prompt: String,
    pub depth: i64,
    /// The model client to use; chosen by scope and strength where there is
    /// none.
    pub client: Option<String>,
}

/// Why a sub-agent is not run, if it is not. `meta` is what is known of the
/// agent, or why it could not be loaded.
pub open spec fn sub_agent_refusal(
    args: JsonView,
    parent: Seq<char>,
    meta: Result<AgentMeta, String>,
    parent_depth: Option<i64>,
) -> Option<Seq<char>> {
    let target = args.field("agent_id"@).as_text()->Some_0;
    if call_agent_refusal(args, parent) is Some {
        call_agent_refusal(args, parent)
    } else {
        match meta {
            Err(why) => Some("call_agent: agent `"@ + target + "` not found: "@ + why@),
            Ok(m) => if m.is_system_agent {
                Some(
                    "call_agent: agent `"@ + target
                        + "` is a system agent and cannot be invoked via call_agent"@,
                )
            } else {
                match parent_depth {
                    None => Some("call_agent: parent stack frame not found"@),
                    Some(d) => if d + 1 > MAX_AGENT_DEPTH {
                        Some(
                            "call_agent: maximum agent depth (5) exceeded — refusing to recurse further"@,
                        )
                    } else {
                        None
                    },
                }
            },
        }
    }
}

/// Decides whether and how a `call_agent` runs.
pub fn dispatch_call_agent(
    args: &Json,
    parent_agent: &str,
    meta: Result<AgentMeta, String>,
    parent_depth: Option<i64>,
) -> (r: Result<SubAgentPlan, String>)
    requires
        parent_depth matches Some(d) ==> d < i64::MAX,
    ensures
        match r {
            Ok(p) => {
                &&& sub_agent_refusal(args@, parent_agent@, meta, parent_depth) is None
                &&& args@.field("agent_id"@).as_text() == Some(p.target@)
                &&& args@.field("prompt"@).as_text() == Some(p.prompt@)
                &&& p.depth == parent_depth->Some_0 + 1
                &&& opt_text(p.client) == match args@.field("client"@).as_text() {
                    Some(c) => Some(c),
                    None => opt_text(meta->Ok_0.client),
                }
            },
            Err(e) => sub_agent_refusal(args@, parent_agent@, meta, parent_depth) == Some(e@),
        },
{
    let q: AgentRequest = match call_agent_request(args, parent_agent) {
        Ok(q) => q,
        Err(e) => {
            return Err(e);
        },
    };
    let m: AgentMeta = match meta {
        Ok(m) => m,
        Err(why) => {
            return match call_agent_target(q.target.as_str(), Some(why.as_str()), false) {
                Ok(_) => Err(why),
                Err(e) => Err(e),
            };
        },
    };
    match call_agent_target(q.target.as_str(), None, m.is_system_agent) {
        Ok(_) => {},
        Err(e) => {
            return Err(e);
        },
    }
    match call_agent_depth(parent_depth) {
        Ok(depth) => Ok(
            SubAgentPlan {
                target: q.target,
                prompt: q.prompt,
                depth,
                client: explicit_client(q.client, m.client),
            },
        ),
        Err(e) => Err(e),
    }
}

/// A sub-agent that runs is neither the main agent nor its own caller, and
/// lies one below it, within the limit.
pub proof fn law_sub_agents_nest(
    args: JsonView,
    parent: Seq<char>,
    meta: Result<AgentMeta, String>,
    parent_depth: Option<i64>,
)
    requires
        sub_agent_refusal(args, parent, meta, parent_depth) is None,
    ensures
        args.field("agent_id"@).as_text() is Some,
        args.field("agent_id"@).as_text() != Some(parent),
        args.field("agent_id"@).as_text() != Some("main"@),
        parent_depth matches Some(d) && d + 1 <= MAX_AGENT_DEPTH,
{
}

/// The event that announces a sub-agent.
pub fn agent_started(
    stack_id: i64,
    parent_tool_call_id: i64,
    agent_id: &str,
    parent_agent_id: &str,
    depth: i64,
    prompt: &str,
) -> (r: ServerEvent)
    ensures
        r matches ServerEvent::AgentStart {
            stack_id: s,
            parent_tool_call_id: c,
            agent_id: a,
            parent_agent_id: p,
            depth: d,
            prompt_preview: v,
        } && s == stack_id && c == parent_tool_call_id && a@ == agent_id@ && p@ == parent_agent_id@
            && d == depth && v@ == preview_of(prompt@),
{
    ServerEvent::AgentStart {
        stack_id,
        parent_tool_call_id,
        agent_id: agent_id.to_owned(),
        parent_agent_id: parent_agent_id.to_owned(),
        depth,
        prompt_preview: preview(prompt),
    }
}

/// What a scratchpad update stores and returns: missing arguments count as
/// empty.
pub struct ScratchpadUpdate {
    pub key: String,
    pub value: String,
    pub reply: String,
}

pub open spec fn text_or_empty(o: Option<Seq<char>>) -> Seq<char> {
    match o {
        Some(t) => t,
        None => Seq::empty(),
    }
}

pub fn scratchpad_update(args: &Json) -> (r: ScratchpadUpdate)
    ensures
        r.key@ == text_or_empty(args@.field("key"@).as_text()),
        r.value@ == text_or_empty(args@.field("value"@).as_text()),
        r.reply@ == "Scratchpad updated: "@ + r.key@,
{
    let key: String = match args.text_field("key") {
        Some(k) => k,
        None => String::new(),
    };
    let value: String = match args.text_field("value") {
        Some(v) => v,
        None => String::new(),
    };
    let mut reply: String = "Scratchpad updated: ".to_owned();
    reply.append(key.as_str());
    ScratchpadUpdate { key, value, reply }
}

/// A question to the user.
pub struct ClarificationRequest {
    pub title: String,
    pub question: String,
    pub suggested_answers: Vec<String>,
}

/// The question that an `ask_user_clarification` call asks.
pub fn clarification_request(args: &Json) -> (r: ClarificationRequest)
    ensures
        r.title@ == match args@.field("title"@).as_text() {
            Some(t) => t,
            None => "Clarification needed"@,
        },
        r.question@ == match args@.field("question"@).as_text() {
            Some(t) => t,
            None => "?"@,
        },
        texts(r.suggested_answers@) == match args@.field("suggested_answers"@).as_array() {
            Some(items) => texts_among(items),
            None => Seq::empty(),
        },
{
    let title: String = match args.text_field("title") {
        Some(t) => t,
        None => "Clarification needed".to_owned(),
    };
    let question: String = match args.text_field("question") {
        Some(t) => t,
        None => "?".to_owned(),
    };
    let mut suggested_answers: Vec<String> = Vec::new();
    assert(texts(suggested_answers@) =~= Seq::<Seq<char>>::empty());
    match args.get("suggested_answers") {
        Some(j) => match text_items(j) {
            Some(v) => {
                suggested_answers = v;
            },
            None => {},
        },
        None => {},
    }
    ClarificationRequest { title, question, suggested_answers }
}

/// Whether the rules of a permission group leave a tool visible.
pub open spec fn visible_under(rules: Seq<ApprovalRule>) -> spec_fn(Seq<char>) -> bool {
    |name: Seq<char>| first_tool_action(rules, name) != Some(RuleAction::Deny)
}

/// Whether a whitelist lets a tool through.
pub open spec fn listed_in(allowed: Option<Seq<Seq<char>>>) -> spec_fn(Seq<char>) -> bool {
    |name: Seq<char>|
        match allowed {
            Some(names) => names.contains(name),
            None => true,
        }
}

/// The tools that a top-level agent has besides those of the registry.
pub open spec fn builtin_tools(is_interactive: bool) -> Seq<Seq<char>> {
    if is_interactive {
        seq!["call_agent"@, "update_scratchpad"@]
    } else {
        seq!["call_agent"@, "update_scratchpad"@, "ask_user_clarification"@]
    }
}

/// The texts in a list that a rule set leaves visible, in order.
fn keep_visible(names: &Vec<String>, rules: &Vec<ApprovalRule>) -> (r: Vec<String>)
    ensures
        texts(r@) == texts(names@).filter(visible_under(rules@)),
{
    let ghost all = texts(names@);
    let ghost keep = visible_under(rules@);
    let mut out: Vec<String> = Vec::new();
    let mut i: usize = 0;
    assert(all.take(0).filter(keep) =~= Seq::<Seq<char>>::empty()) by {
        reveal(Seq::filter);
    }
    assert(texts(out@) =~= all.take(0).filter(keep));
    while i < names.len()
        invariant
            i <= names@.len(),
            all == texts(names@),
            keep == visible_under(rules@),
            texts(out@) == all.take(i as int).filter(keep),
        decreases names@.len() - i,
    {
        proof {
            assert(all.take(i + 1).drop_last() =~= all.take(i as int));
            lemma_filter_last(all.take(i + 1), keep);
        }
        if is_tool_visible(rules, names[i].as_str()) {
            let ghost had = texts(out@);
            out.push(names[i].clone());
            assert(texts(out@) =~= had.push(all[i as int]));
        }
        i = i + 1;
    }
    assert(all.take(all.len() as int) =~= all);
    out
}

/// The texts in a list that a whitelist lets through, in order.
fn keep_listed(names: Vec<String>, allowed: Option<&Vec<String>>) -> (r: Vec<String>)
    ensures
        texts(r@) == texts(names@).filter(
            listed_in(
                match allowed {
                    Some(a) => Some(texts(a@)),
                    None => None,
                },
            ),
        ),
{
    let ghost all = texts(names@);
    let ghost list = match allowed {
        Some(a) => Some(texts(a@)),
        None => None,
    };
    let ghost keep = listed_in(list);
    let mut out: Vec<String> = Vec::new();
    let mut i: usize = 0;
    assert(all.take(0).filter(keep) =~= Seq::<Seq<char>>::empty()) by {
        reveal(Seq::filter);
    }
    assert(texts(out@) =~= all.take(0).filter(keep));
    while i < names.len()
        invariant
            i <= names@.len(),
            all == texts(names@),
            keep == listed_in(list),
            list == (match allowed {
                Some(a) => Some(texts(a@)),
                None => None,
            }),
            texts(out@) == all.take(i as int).filter(keep),
        decreases names@.len() - i,
    {
        proof {
            assert(all.take(i + 1).drop_last() =~= all.take(i as int));
            lemma_filter_last(all.take(i + 1), keep);
        }
        let listed: bool = match allowed {
            Some(a) => contains_item(a, names[i].as_str()),
            None => true,
        };
        if listed {
            let ghost had = texts(out@);
            out.push(names[i].clone());
            assert(texts(out@) =~= had.push(all[i as int]));
        }
        i = i + 1;
    }
    assert(all.take(all.len() as int) =~= all);
    out
}

/// The tools offered to a top-level agent: those of the registry and the
/// built-in ones, as far as the agent's own whitelist and the rules of the
/// session's permission group leave them.
pub fn root_tool_names(
    registry: &Vec<String>,
    is_interactive: bool,
    allowed: Option<&Vec<String>>,
    rules: &Vec<ApprovalRule>,
) -> (r: Vec<String>)
    ensures
        texts(r@) == (texts(registry@) + builtin_tools(is_interactive)).filter(
            listed_in(
                match allowed {
                    Some(a) => Some(texts(a@)),
                    None => None,
                },
            ),
        ).filter(visible_under(rules@)),
{
    let mut names: Vec<String> = copy_texts(registry);
    names.push("call_agent".to_owned());
    names.push("update_scratchpad".to_owned());
    // A background session can pause for the user; an interactive one asks in the chat.
    if !is_interactive {
        names.push("ask_user_clarification".to_owned());
    }
    assert(texts(names@) =~= texts(registry@) + builtin_tools(is_interactive));
    let names: Vec<String> = keep_listed(names, allowed);
    keep_visible(&names, rules)
}

/// The tools offered to a sub-agent: what it inherits, what only sub-agents
/// have, and the question to the user, as far as the rules leave them.
pub fn sub_agent_tool_names(
    inherited: &Vec<String>,
    sub_agents_only: &Vec<String>,
    rules: &Vec<ApprovalRule>,
) -> (r: Vec<String>)
    ensures
        texts(r@) == (texts(inherited@) + texts(sub_agents_only@)).push(
            "ask_user_clarification"@,
        ).filter(visible_under(rules@)),
{
    let mut names: Vec<String> = copy_texts(inherited);
    let mut i: usize = 0;
    let ghost more = texts(sub_agents_only@);
    assert(texts(names@) =~= texts(inherited@) + more.take(0));
    while i < sub_agents_only.len()
        invariant
            i <= sub_agents_only@.len(),
            more == texts(sub_agents_only@),
            texts(names@) == texts(inherited@) + more.take(i as int),
        decreases sub_agents_only@.len() - i,
    {
        let ghost had = texts(names@);
        names.push(sub_agents_only[i].clone());
        assert(texts(names@) =~= had.push(more[i as int]));
        i = i + 1;
        assert(texts(names@) =~= texts(inherited@) + more.take(i as int));
    }
    assert(more.take(more.len() as int) =~= more);
    let ghost had = texts(names@);
    names.push("ask_user_clarification".to_owned());
    assert(texts(names@) =~= had.push("ask_user_clarification"@));
    keep_visible(&names, rules)
}

/// Whatever list it is taken from, no tool that the rules deny is offered.
pub proof fn law_denied_tools_are_not_offered(
    names: Seq<Seq<char>>,
    rules: Seq<ApprovalRule>,
    tool: Seq<char>,
)
    requires
        first_tool_action(rules, tool) == Some(RuleAction::Deny),
    ensures
        !names.filter(visible_under(rules)).contains(tool),
{
    broadcast use vstd::seq_lib::group_filter_ensures;

    let keep = visible_under(rules);
    let kept = names.filter(keep);
    if kept.contains(tool) {
        let i = choose|i: int| 0 <= i < kept.len() && kept[i] == tool;
        assert(keep(kept[i]));
    }
}

/// A preview is the text itself where it has at most 500 bytes, else as much of
/// it as fits and an ellipsis.
pub proof fn law_previews(s: &str, r: String, cut: Seq<char>)
    requires
        call_ensures(preview, (s,), r),
    ensures
        text_bytes(s@) <= 500 ==> r@ == s@,
        text_bytes(s@) > 500 && is_longest_within(cut, s@, 500) ==> r@ == cut + "…"@,
{
    lemma_byte_prefix(s@, 500);
    if is_longest_within(cut, s@, 500) {
        lemma_one_longest(cut, byte_prefix(s@, 500), s@, 500);
    }
}

/// Which calls of agents are accepted: those that name an agent, other than the
/// caller itself and other than `main`, and say what it is to do.
pub proof fn law_which_agents_may_be_called(args: &Json, parent: &str, r: Result<AgentRequest, String>)
    requires
        call_ensures(call_agent_request, (args, parent), r),
    ensures
        r is Ok <==> args@.field("agent_id"@) is Text && args@.field("prompt"@) is Text
            && args@.field("agent_id"@) != JsonView::Text(parent@) && args@.field("agent_id"@)
            != JsonView::Text("main"@),
        r matches Ok(q) ==> args@.field("agent_id"@) == JsonView::Text(q.target@)
            && args@.field("prompt"@) == JsonView::Text(q.prompt@) && (match args@.field("client"@) {
            JsonView::Text(t) => q.client is Some && q.client->Some_0@ == t,
            _ => q.client is None,
        }),
        r matches Err(e) ==> if !(args@.field("agent_id"@) is Text) {
            e@ == "call_agent: missing required argument `agent_id`"@
        } else if !(args@.field("prompt"@) is Text) {
            e@ == "call_agent: missing required argument `prompt`"@
        } else if args@.field("agent_id"@) == JsonView::Text(parent@) {
            e@ == "call_agent: an agent cannot call itself (`"@ + parent@ + "`)"@
        } else {
            e@
                == "call_agent: the `main` agent is the root entry point and cannot be invoked as a sub-agent"@
        },
{
}

/// Agents nest five deep and no deeper.
pub proof fn law_how_deep_agents_nest(parent_depth: Option<i64>, r: Result<i64, String>)
    requires
        call_ensures(call_agent_depth, (parent_depth,), r),
    ensures
        r is Ok <==> parent_depth is Some && parent_depth->Some_0 < 5,
        r matches Ok(n) ==> n == parent_depth->Some_0 + 1,
        r matches Err(e) ==> e@ == if parent_depth is None {
            "call_agent: parent stack frame not found"@
        } else {
            "call_agent: maximum agent depth (5) exceeded — refusing to recurse further"@
        },
{
}

/// A call of an agent becomes a sub-agent exactly where the call is accepted,
/// the agent exists and is not the system's, and there is room below the
/// caller; the first of these that fails is told.
pub proof fn law_when_a_sub_agent_runs(
    args: &Json,
    parent: &str,
    meta: Result<AgentMeta, String>,
    parent_depth: Option<i64>,
    r: Result<SubAgentPlan, String>,
    q: Result<AgentRequest, String>,
    depth: Result<i64, String>,
)
    requires
        call_ensures(dispatch_call_agent, (args, parent, meta, parent_depth), r),
        call_ensures(call_agent_request, (args, parent), q),
        call_ensures(call_agent_depth, (parent_depth,), depth),
    ensures
        r is Ok <==> q is Ok && (meta matches Ok(m) && !m.is_system_agent) && depth is Ok,
        r matches Ok(p) ==> p.target@ == q->Ok_0.target@ && p.prompt@ == q->Ok_0.prompt@ && p.depth
            == depth->Ok_0 && (match q->Ok_0.client {
            Some(c) => p.client is Some && p.client->Some_0@ == c@,
            None => opt_text(p.client) == opt_text(meta->Ok_0.client),
        }),
        r matches Err(e) ==> if q is Err {
            e@ == q->Err_0@
        } else if meta is Err {
            e@ == "call_agent: agent `"@ + q->Ok_0.target@ + "` not found: "@ + meta->Err_0@
        } else if meta->Ok_0.is_system_agent {
            e@ == "call_agent: agent `"@ + q->Ok_0.target@
                + "` is a system agent and cannot be invoked via call_agent"@
        } else {
            e@ == depth->Err_0@
        },
{
}

/// What a note is: its key and its value, empty where the call has none.
pub proof fn law_notes(args: &Json, r: ScratchpadUpdate)
    requires
        call_ensures(scratchpad_update, (args,), r),
    ensures
        r.key@ == match args@.field("key"@) {
            JsonView::Text(t) => t,
            _ => Seq::empty(),
        },
        r.value@ == match args@.field("value"@) {
            JsonView::Text(t) => t,
            _ => Seq::empty(),
        },
        r.reply@ == "Scratchpad updated: "@ + r.key@,
{
}

/// What a user is asked, with something to show where the call leaves a part
/// out.
pub proof fn law_questions(args: &Json, r: ClarificationRequest, answers: Option<&Json>, key: &str, items: Option<Vec<String>>)
    requires
        call_ensures(clarification_request, (args,), r),
        call_ensures(Json::get, (args, key), answers),
        key@ == "suggested_answers"@,
        answers matches Some(j) ==> call_ensures(text_items, (j,), items),
        answers is None ==> items is None,
    ensures
        r.title@ == match args@.field("title"@) {
            JsonView::Text(t) => t,
            _ => "Clarification needed"@,
        },
        r.question@ == match args@.field("question"@) {
            JsonView::Text(t) => t,
            _ => "?"@,
        },
        items matches Some(v) ==> texts(r.suggested_answers@) == texts(v@),
        items is None ==> r.suggested_answers@.len() == 0,
{
    assert(texts(r.suggested_answers@).len() == r.suggested_answers@.len());
}

/// The tools that an agent is offered: those of the registry and the session's
/// own, of them only those on the agent's list where it has one, and of these
/// only those that the rules do not hide. Without somebody at hand to talk to,
/// the session's own tools hold the one for asking back.
pub proof fn law_tools_of_an_agent(
    registry: &Vec<String>,
    interactive: bool,
    allowed: Option<&Vec<String>>,
    rules: &Vec<ApprovalRule>,
    r: Vec<String>,
    name: &str,
    visible: bool,
)
    requires
        call_ensures(root_tool_names, (registry, interactive, allowed, rules), r),
        call_ensures(is_tool_visible, (rules, name), visible),
    ensures
        texts(r@).contains(name@) <==> visible && (texts(registry@).contains(name@) || name@
            == "call_agent"@ || name@ == "update_scratchpad"@ || (!interactive && name@
            == "ask_user_clarification"@)) && (allowed is None || texts(
            allowed->Some_0@,
        ).contains(name@)),
{
    let all = texts(registry@) + builtin_tools(interactive);
    let list = match allowed {
        Some(a) => Some(texts(a@)),
        None => None,
    };
    let on = all.filter(listed_in(list));
    lemma_among(all, listed_in(list), name@);
    lemma_among(on, visible_under(rules@), name@);
    let own = builtin_tools(interactive);
    assert(own[0] == "call_agent"@ && own[1] == "update_scratchpad"@);
    if !interactive {
        assert(own[2] == "ask_user_clarification"@);
    }
    lemma_in_either(texts(registry@), own, name@);
    if own.contains(name@) {
        let k = own.index_of(name@);
        assert(own[k] == name@);
    }
}

proof fn lemma_in_either(a: Seq<Seq<char>>, b: Seq<Seq<char>>, x: Seq<char>)
    ensures
        (a + b).contains(x) == (a.contains(x) || b.contains(x)),
{
    if a.contains(x) {
        assert((a + b)[a.index_of(x)] == x);
    }
    if b.contains(x) {
        assert((a + b)[a.len() + b.index_of(x)] == x);
    }
    if (a + b).contains(x) {
        let k = (a + b).index_of(x);
        if k < a.len() {
            assert(a[k] == x);
        } else {
            assert(b[k - a.len()] == x);
        }
    }
}

proof fn lemma_among(s: Seq<Seq<char>>, keep: spec_fn(Seq<char>) -> bool, x: Seq<char>)
    ensures
        s.filter(keep).contains(x) == (s.contains(x) && keep(x)),
{
    broadcast use vstd::seq_lib::group_filter_ensures;

    let kept = s.filter(keep);
    if kept.contains(x) {
        s.lemma_filter_contains_rev(keep, x);
        let k = kept.index_of(x);
        assert(keep(kept[k]));
    }
    if s.contains(x) && keep(x) {
        assert(kept.contains(x));
    }
}

/// The tools that a sub-agent is offered: those of its caller, those that only
/// sub-agents have, and the one for asking back, as far as the rules do not hide
/// them.
pub proof fn law_tools_of_a_sub_agent(
    inherited: &Vec<String>,
    own: &Vec<String>,
    rules: &Vec<ApprovalRule>,
    r: Vec<String>,
    name: &str,
    visible: bool,
)
    requires
        call_ensures(sub_agent_tool_names, (inherited, own, rules), r),
        call_ensures(is_tool_visible, (rules, name), visible),
    ensures
        texts(r@).contains(name@) <==> visible && (texts(inherited@).contains(name@) || texts(
            own@,
        ).contains(name@) || name@ == "ask_user_clarification"@),
{
    let both = texts(inherited@) + texts(own@);
    let all = both.push("ask_user_clarification"@);
    lemma_among(all, visible_under(rules@), name@);
    lemma_in_either(texts(inherited@), texts(own@), name@);
    lemma_in_either(both, seq!["ask_user_clarification"@], name@);
    assert(all =~= both + seq!["ask_user_clarification"@]);
    assert(seq!["ask_user_clarification"@][0] == "ask_user_clarification"@);
    if seq!["ask_user_clarification"@].contains(name@) {
        assert(seq!["ask_user_clarification"@].index_of(name@) == 0);
    }
}

/// Which agents can be reached, which model they get, and how they are
/// announced.
pub proof fn law_sub_agents_are_announced(
    target: &str,
    missing: Option<&str>,
    system: bool,
    r: Result<(), String>,
    called: Option<String>,
    configured: Option<String>,
    client: Option<String>,
    stack_id: i64,
    call_id: i64,
    agent: &str,
    parent: &str,
    depth: i64,
    prompt: &str,
    event: ServerEvent,
    shown: String,
)
    requires
        call_ensures(call_agent_target, (target, missing, system), r),
        call_ensures(explicit_client, (called, configured), client),
        call_ensures(agent_started, (stack_id, call_id, agent, parent, depth, prompt), event),
        call_ensures(preview, (prompt,), shown),
    ensures
        r is Ok <==> missing is None && !system,
        r matches Err(e) ==> e@ == match missing {
            Some(why) => "call_agent: agent `"@ + target@ + "` not found: "@ + why@,
            None => "call_agent: agent `"@ + target@
                + "` is a system agent and cannot be invoked via call_agent"@,
        },
        called is Some ==> client == called,
        called is None ==> client == configured,
        event matches ServerEvent::AgentStart {
            stack_id: s,
            parent_tool_call_id: c,
            agent_id: a,
            parent_agent_id: p,
            depth: d,
            prompt_preview: v,
        } && s == stack_id && c == call_id && a@ == agent@ && p@ == parent@ && d == depth && v@
            == shown@,
{
}

} // verus!
