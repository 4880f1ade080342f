//! Picking up interrupted work: tool calls that were left pending, and turns
//! whose sub-agents finish while nobody waits for them.
//!
//! [`ResumeQueue`] takes the pending calls one by one through approval, as a
//! turn does.
use vstd::prelude::*;

use crate::approval::manager::{rejection_text, ApprovalDecision};
use crate::approval::rules::GateResult;
use crate::db::chat_history::Role;
use crate::events::ServerEvent;
use crate::session::agents::{preview, preview_of};
use crate::session::dispatch::{find_name, name_index};
use crate::session::turn::{denied_text, GateStep, ToolRun};
use crate::text::{str_eq, texts};

verus! {

broadcast use vstd::seq_lib::group_seq_properties;

/// A tool call that was left pending.
#[derive(Debug)]
pub struct PendingCall {
    pub id: i64,
    pub name: String,
}

/// Where the resumption stands.
#[derive(Debug, Clone, Copy, PartialEq, Eq, Structural)]
pub enum ResumePhase {
    /// Between two calls.
    AtCall,
    /// The user is asked again.
    Asking,
    /// The call stands before approval.
    AtGate,
    /// The call waits for a human.
    Waiting,
    /// The call runs.
    Running,
    /// No call is left, or a channel was closed.
    Ended,
}

/// The calls being resumed, in order.
pub struct ResumeQueue {
    pub calls: Vec<PendingCall>,
    pub next: usize,
    pub phase: ResumePhase,
}

/// What to do with the next pending call.
#[derive(Debug, Clone, Copy, PartialEq, Eq, Structural)]
pub enum ResumeStep {
    /// Nothing was or is pending. `had_pending` says whether something was.
    Finished { had_pending: bool },
    /// Leave the call alone: its sub-agent's stack completes it.
    Skip,
    /// Ask the user's clarification again.
    AskAgain,
    /// Announce the call and take it through approval.
    Gate,
}

/// What to do with the result of a resumed call.
#[derive(Debug, Clone, Copy, PartialEq, Eq, Structural)]
pub enum SettleStep {
    Complete,
    Fail,
    /// The call stays pending and the resumption stops.
    Stop,
}

/// What runs a resumed call.
#[derive(Debug, Clone, Copy, PartialEq, Eq, Structural)]
pub enum ResumeTarget {
    Restart,
    /// The memory tool at this position.
    Memory(usize),
    /// The MCP servers or the registry.
    Registry,
}

impl ResumeQueue {
    pub open spec fn wf(&self) -> bool {
        &&& self.next <= self.calls@.len()
        &&& self.phase != ResumePhase::AtCall && self.phase != ResumePhase::Ended ==> self.next
            < self.calls@.len()
    }

    pub open spec fn current(&self) -> PendingCall {
        self.calls@[self.next as int]
    }

    /// What is left to do; every step lowers it.
    pub open spec fn rank(&self) -> nat {
        let left = (self.calls@.len() - self.next) as nat;
        match self.phase {
            ResumePhase::AtCall => 4 * left + 1,
            ResumePhase::Asking => 4 * left,
            ResumePhase::AtGate => 4 * left,
            ResumePhase::Waiting => (4 * left - 1) as nat,
            ResumePhase::Running => (4 * left - 2) as nat,
            ResumePhase::Ended => 0,
        }
    }

    /// Whether a step changed the phase and nothing else.
    pub open spec fn moved_to(&self, before: &ResumeQueue, phase: ResumePhase) -> bool {
        self.calls == before.calls && self.next == before.next && self.phase == phase
    }

    /// Whether a step went on to the next call.
    pub open spec fn call_over(&self, before: &ResumeQueue) -> bool {
        self.calls == before.calls && self.next == before.next + 1 && self.phase
            == ResumePhase::AtCall
    }

    pub fn new(calls: Vec<PendingCall>) -> (r: ResumeQueue)
        ensures
            r.wf(),
            r.calls == calls,
            r.next == 0,
            r.phase == ResumePhase::AtCall,
    {
        ResumeQueue { calls, next: 0, phase: ResumePhase::AtCall }
    }

    fn advance(&mut self)
        requires
            old(self).next < old(self).calls@.len(),
        ensures
            final(self).call_over(old(self)),
    {
        let n: usize = self.calls.len();
        assert(self.next < n);
        self.next = self.next + 1;
        self.phase = ResumePhase::AtCall;
    }

    /// Turns to the next call. A `call_agent` is left to its own stack, a
    /// question is asked again, anything else goes through approval with the
    /// rules of now.
    pub fn begin_call(&mut self) -> (r: ResumeStep)
        requires
            old(self).wf(),
            old(self).phase == ResumePhase::AtCall,
        ensures
            final(self).wf(),
            final(self).rank() < old(self).rank(),
            if old(self).next == old(self).calls@.len() {
                r == ResumeStep::Finished { had_pending: old(self).calls@.len() > 0 }
                    && final(self).moved_to(old(self), ResumePhase::Ended)
            } else if old(self).current().name@ == "call_agent"@ {
                r == ResumeStep::Skip && final(self).call_over(old(self))
            } else if old(self).current().name@ == "ask_user_clarification"@ {
                r == ResumeStep::AskAgain && final(self).moved_to(old(self), ResumePhase::Asking)
            } else {
                r == ResumeStep::Gate && final(self).moved_to(old(self), ResumePhase::AtGate)
            },
    {
        if self.next == self.calls.len() {
            self.phase = ResumePhase::Ended;
            return ResumeStep::Finished { had_pending: self.calls.len() > 0 };
        }
        if str_eq(self.calls[self.next].name.as_str(), "call_agent") {
            self.advance();
            ResumeStep::Skip
        } else if str_eq(self.calls[self.next].name.as_str(), "ask_user_clarification") {
            self.phase = ResumePhase::Asking;
            ResumeStep::AskAgain
        } else {
            self.phase = ResumePhase::AtGate;
            ResumeStep::Gate
        }
    }

    /// What came of asking the user again. A closed channel leaves the call
    /// pending for the next resumption.
    pub fn asked(&mut self, run: &ToolRun) -> (r: SettleStep)
        requires
            old(self).wf(),
            old(self).phase == ResumePhase::Asking,
        ensures
            final(self).wf(),
            final(self).rank() < old(self).rank(),
            match run {
                ToolRun::Done(_) => r == SettleStep::Complete && final(self).call_over(old(self)),
                ToolRun::Failed(_) => r == SettleStep::Fail && final(self).call_over(old(self)),
                ToolRun::ChannelClosed => r == SettleStep::Stop && final(self).moved_to(
                    old(self),
                    ResumePhase::Ended,
                ),
            },
    {
        match run {
            ToolRun::Done(_) => {
                self.advance();
                SettleStep::Complete
            },
            ToolRun::Failed(_) => {
                self.advance();
                SettleStep::Fail
            },
            ToolRun::ChannelClosed => {
                self.phase = ResumePhase::Ended;
                SettleStep::Stop
            },
        }
    }

    /// It was decided on the call.
    pub fn gated(&mut self, gate: GateResult) -> (r: GateStep)
        requires
            old(self).wf(),
            old(self).phase == ResumePhase::AtGate,
        ensures
            final(self).wf(),
            final(self).rank() < old(self).rank(),
            match gate {
                GateResult::Allow => r is Run && final(self).moved_to(
                    old(self),
                    ResumePhase::Running,
                ),
                GateResult::Deny => r matches GateStep::Fail(t) && t@ == denied_text()
                    && final(self).call_over(old(self)),
                GateResult::Require => r is AskHuman && final(self).moved_to(
                    old(self),
                    ResumePhase::Waiting,
                ),
            },
    {
        match gate {
            GateResult::Allow => {
                self.phase = ResumePhase::Running;
                GateStep::Run
            },
            GateResult::Deny => {
                self.advance();
                GateStep::Fail("Tool call denied by approval policy.".to_owned())
            },
            GateResult::Require => {
                self.phase = ResumePhase::Waiting;
                GateStep::AskHuman
            },
        }
    }

    /// The human has decided on the call; `None` where the channel was closed
    /// before that, which leaves the call pending.
    pub fn decided(&mut self, decision: Option<ApprovalDecision>) -> (r: GateStep)
        requires
            old(self).wf(),
            old(self).phase == ResumePhase::Waiting,
        ensures
            final(self).wf(),
            final(self).rank() < old(self).rank(),
            match decision {
                Some(ApprovalDecision::Approved) => r is Run && final(self).moved_to(
                    old(self),
                    ResumePhase::Running,
                ),
                Some(ApprovalDecision::Rejected { note }) => r matches GateStep::Fail(t) && t@
                    == rejection_text(note@) && final(self).call_over(old(self)),
                None => r is Cancelled && final(self).moved_to(old(self), ResumePhase::Ended),
            },
    {
        match decision {
            Some(ApprovalDecision::Approved) => {
                self.phase = ResumePhase::Running;
                GateStep::Run
            },
            Some(ApprovalDecision::Rejected { note }) => {
                self.advance();
                GateStep::Fail(ApprovalDecision::rejection_message(note.as_str()))
            },
            None => {
                self.phase = ResumePhase::Ended;
                GateStep::Cancelled
            },
        }
    }

    /// What runs the call: a restart, else a memory tool of that name, else
    /// the registry.
    pub fn target(&self, memory: &Vec<String>) -> (r: ResumeTarget)
        requires
            self.wf(),
            self.phase == ResumePhase::Running,
        ensures
            if self.current().name@ == "restart"@ {
                r == ResumeTarget::Restart
            } else {
                match name_index(texts(memory@), self.current().name@) {
                    Some(i) => r matches ResumeTarget::Memory(k) && k == i,
                    None => r == ResumeTarget::Registry,
                }
            },
    {
        let name: &str = self.calls[self.next].name.as_str();
        if str_eq(name, "restart") {
            return ResumeTarget::Restart;
        }
        match find_name(memory, name) {
            Some(i) => ResumeTarget::Memory(i),
            None => ResumeTarget::Registry,
        }
    }

    /// The call has run.
    pub fn ran(&mut self, succeeded: bool) -> (r: SettleStep)
        requires
            old(self).wf(),
            old(self).phase == ResumePhase::Running,
        ensures
            final(self).wf(),
            final(self).rank() < old(self).rank(),
            r == if succeeded {
                SettleStep::Complete
            } else {
                SettleStep::Fail
            },
            final(self).call_over(old(self)),
    {
        self.advance();
        if succeeded {
            SettleStep::Complete
        } else {
            SettleStep::Fail
        }
    }
}

/// How a resumed turn of a stack ended.
pub enum ResumeOutcome {
    Final {
        content: String,
        message_id: i64,
        input_tokens: Option<u32>,
        output_tokens: Option<u32>,
        truncated: bool,
    },
    Cancelled,
    Exhausted,
    /// A sub-agent was started, and its own task goes on from here.
    WaitingChild,
}

/// Whether the model has to run once the pending calls are settled: always
/// where there were some; else unless the last message is an answer without
/// tool calls. `last` is the last message's role and whether it has tool calls.
pub fn needs_model(had_pending: bool, last: Option<(Role, bool)>) -> (r: bool)
    ensures
        r == (had_pending || match last {
            Some((role, has_calls)) => role != Role::Assistant || has_calls,
            None => true,
        }),
{
    if had_pending {
        return true;
    }
    match last {
        Some((role, has_calls)) => role != Role::Assistant || has_calls,
        None => true,
    }
}

/// What a finished sub-agent hands to the call that started it.
#[derive(Debug)]
pub struct ChildResult {
    pub text: String,
    pub is_error: bool,
}

/// The text of a finished sub-agent, and whether it stands for a failure.
pub open spec fn child_result_of(o: ResumeOutcome, agent_id: Seq<char>) -> (Seq<char>, bool) {
    match o {
        ResumeOutcome::Final { content, .. } => (content@, false),
        ResumeOutcome::Cancelled => ("Sub-agent `"@ + agent_id + "` was cancelled."@, true),
        _ => ("Sub-agent `"@ + agent_id + "` exhausted tool-call rounds."@, true),
    }
}

/// The result to propagate to the parent's tool call: it completes with the
/// answer, or fails with the reason.
pub fn child_result(outcome: &ResumeOutcome, agent_id: &str) -> (r: ChildResult)
    requires
        !(outcome is WaitingChild),
    ensures
        (r.text@, r.is_error) == child_result_of(*outcome, agent_id@),
{
    match outcome {
        ResumeOutcome::Final { content, .. } => ChildResult {
            text: content.clone(),
            is_error: false,
        },
        ResumeOutcome::Cancelled => {
            let mut t: String = "Sub-agent `".to_owned();
            t.append(agent_id);
            t.append("` was cancelled.");
            ChildResult { text: t, is_error: true }
        },
        _ => {
            let mut t: String = "Sub-agent `".to_owned();
            t.append(agent_id);
            t.append("` exhausted tool-call rounds.");
            ChildResult { text: t, is_error: true }
        },
    }
}

/// A stack frame on the way up.
#[derive(Debug)]
pub struct Frame {
    pub id: i64,
    pub agent_id: String,
    /// The tool call of the parent that this frame answers; `None` at the root.
    pub parent_tool_call_id: Option<i64>,
}

/// What to do once the turn of a frame has ended.
pub enum CascadeStep {
    /// A sub-agent's task takes over.
    Defer,
    /// Settle the parent's tool call with this result, end this frame, and
    /// resume the parent.
    Propagate { tool_call_id: i64, result: ChildResult },
    /// This is the root: publish these events.
    Finish(Vec<ServerEvent>),
}

/// Whether the events are one error with this message.
pub open spec fn is_error_of(events: Seq<ServerEvent>, text: Seq<char>) -> bool {
    &&& events.len() == 1
    &&& events[0] matches ServerEvent::Error { message } && message@ == text
}

/// The events with which a resumed root turn ends.
pub open spec fn is_root_ending(events: Seq<ServerEvent>, o: ResumeOutcome, stack_id: i64) -> bool {
    match o {
        ResumeOutcome::Final { content, message_id, input_tokens, output_tokens, truncated } => {
            let done = ServerEvent::Done {
                message_id,
                stack_id,
                content,
                input_tokens,
                output_tokens,
            };
            events == if truncated {
                seq![ServerEvent::Truncated { output_tokens }, done]
            } else {
                seq![done]
            }
        },
        ResumeOutcome::Cancelled => is_error_of(events, "Interrotto dall'utente."@),
        ResumeOutcome::Exhausted => is_error_of(
            events,
            "Exceeded tool-call rounds without a final answer."@,
        ),
        ResumeOutcome::WaitingChild => events.len() == 0,
    }
}

/// Decides how a resumed turn goes on: a turn that started a sub-agent defers
/// to it; the turn of a sub-agent hands its result to the parent; the root's
/// turn is announced.
pub fn cascade(outcome: ResumeOutcome, frame: &Frame) -> (r: CascadeStep)
    ensures
        match outcome {
            ResumeOutcome::WaitingChild => r is Defer,
            _ => match frame.parent_tool_call_id {
                Some(id) => r matches CascadeStep::Propagate { tool_call_id, result } && tool_call_id
                    == id && (result.text@, result.is_error) == child_result_of(
                    outcome,
                    frame.agent_id@,
                ),
                None => r matches CascadeStep::Finish(events) && is_root_ending(
                    events@,
                    outcome,
                    frame.id,
                ),
            },
        },
{
    match &outcome {
        ResumeOutcome::WaitingChild => {
            return CascadeStep::Defer;
        },
        _ => {},
    }
    match frame.parent_tool_call_id {
        Some(id) => CascadeStep::Propagate {
            tool_call_id: id,
            result: child_result(&outcome, frame.agent_id.as_str()),
        },
        None => CascadeStep::Finish(root_ending(outcome, frame.id)),
    }
}

/// The events with which a resumed root turn ends.
pub fn root_ending(outcome: ResumeOutcome, stack_id: i64) -> (r: Vec<ServerEvent>)
    ensures
        is_root_ending(r@, outcome, stack_id),
{
    let mut events: Vec<ServerEvent> = Vec::new();
    match outcome {
        ResumeOutcome::Final { content, message_id, input_tokens, output_tokens, truncated } => {
            if truncated {
                events.push(ServerEvent::Truncated { output_tokens });
            }
            events.push(
                ServerEvent::Done { message_id, stack_id, content, input_tokens, output_tokens },
            );
            assert(events@ =~= if truncated {
                seq![
                    ServerEvent::Truncated { output_tokens },
                    ServerEvent::Done { message_id, stack_id, content, input_tokens, output_tokens },
                ]
            } else {
                seq![ServerEvent::Done { message_id, stack_id, content, input_tokens, output_tokens }]
            });
        },
        ResumeOutcome::Cancelled => {
            events.push(ServerEvent::Error { message: "Interrotto dall'utente.".to_owned() });
        },
        ResumeOutcome::Exhausted => {
            events.push(
                ServerEvent::Error {
                    message: "Exceeded tool-call rounds without a final answer.".to_owned(),
                },
            );
        },
        ResumeOutcome::WaitingChild => {},
    }
    events
}

/// The events for a settled child: the parent's tool call is done or failed,
/// and the sub-agent is done.
pub fn child_done(
    tool_call_id: i64,
    result: &ChildResult,
    child: &Frame,
    parent_agent_id: &str,
) -> (r: (ServerEvent, ServerEvent))
    ensures
        r.0 == if result.is_error {
            ServerEvent::ToolError { tool_call_id, error: result.text }
        } else {
            ServerEvent::ToolDone { tool_call_id, result: result.text }
        },
        r.1 matches ServerEvent::AgentDone { stack_id, agent_id, parent_agent_id: p, result_preview }
            && stack_id == child.id && agent_id == child.agent_id && p@ == parent_agent_id@
            && result_preview@ == preview_of(result.text@),
{
    let settled: ServerEvent = if result.is_error {
        ServerEvent::ToolError { tool_call_id, error: result.text.clone() }
    } else {
        ServerEvent::ToolDone { tool_call_id, result: result.text.clone() }
    };
    let done: ServerEvent = ServerEvent::AgentDone {
        stack_id: child.id,
        agent_id: child.agent_id.clone(),
        parent_agent_id: parent_agent_id.to_owned(),
        result_preview: preview(result.text.as_str()),
    };
    (settled, done)
}

/// A pending call is skipped where it called an agent, asked again where it
/// asked the user, and goes through approval else; behind the last one the
/// queue is finished.
pub proof fn law_pending_calls_in_turn(q: &mut ResumeQueue, r: ResumeStep)
    requires
        call_ensures(ResumeQueue::begin_call, (q,), r),
    ensures
        ({
            let k = old(q).next as int;
            let calls = old(q).calls@;
            &&& r is Finished <==> k == calls.len()
            &&& r matches ResumeStep::Finished { had_pending } ==> had_pending == (calls.len() > 0)
            &&& k != calls.len() ==> {
                let name = calls[k].name@;
                &&& r is Skip <==> name == "call_agent"@
                &&& r is AskAgain <==> name == "ask_user_clarification"@
                &&& final(q).next == if name == "call_agent"@ {
                    k + 1
                } else {
                    k
                }
            }
        }),
        final(q).calls == old(q).calls,
{
    reveal_strlit("call_agent");
    reveal_strlit("ask_user_clarification");
    assert("call_agent"@.len() == 10 && "ask_user_clarification"@.len() == 22);
}

/// A call runs where the rules allow it or a human approves it, fails where it
/// is denied or rejected, and everything stops where nobody answers.
pub proof fn law_pending_calls_need_approval(
    q: &mut ResumeQueue,
    gate: GateResult,
    r: GateStep,
    p: &mut ResumeQueue,
    decision: Option<ApprovalDecision>,
    s: GateStep,
    note: &str,
    told: String,
)
    requires
        call_ensures(ResumeQueue::gated, (q, gate), r),
        call_ensures(ResumeQueue::decided, (p, decision), s),
        decision matches Some(ApprovalDecision::Rejected { note: n }) ==> note@ == n@
            && call_ensures(ApprovalDecision::rejection_message, (note,), told),
    ensures
        r is Run <==> gate is Allow,
        r is AskHuman <==> gate is Require,
        r is Fail <==> gate is Deny,
        r matches GateStep::Fail(t) ==> t@ == "Tool call denied by approval policy."@ && final(q).next == old(q).next + 1,
        !(gate is Deny) ==> final(q).next == old(q).next,
        s is Run <==> decision is Some && decision->Some_0 is Approved,
        s is Cancelled <==> decision is None,
        s is Fail <==> decision is Some && decision->Some_0 is Rejected,
        s matches GateStep::Fail(t) ==> t@ == told@ && final(p).next == old(p).next + 1,
        s is Cancelled ==> final(p).phase is Ended,
{
}

/// What ran or was asked is settled as it ended, and the next call follows; a
/// closed channel ends everything.
pub proof fn law_pending_calls_are_settled(
    q: &mut ResumeQueue,
    succeeded: bool,
    r: SettleStep,
    p: &mut ResumeQueue,
    run: &ToolRun,
    s: SettleStep,
)
    requires
        call_ensures(ResumeQueue::ran, (q, succeeded), r),
        call_ensures(ResumeQueue::asked, (p, run), s),
    ensures
        r == if succeeded {
            SettleStep::Complete
        } else {
            SettleStep::Fail
        },
        final(q).next == old(q).next + 1,
        s is Complete <==> run is Done,
        s is Fail <==> run is Failed,
        s is Stop <==> run is ChannelClosed,
        final(p).next == if run is ChannelClosed {
            old(p).next as int
        } else {
            old(p).next + 1
        },
{
}

/// Where a pending call runs: a restart by its name, a memory tool by its name,
/// any other through the registry.
pub proof fn law_where_pending_calls_run(q: &ResumeQueue, memory: &Vec<String>, r: ResumeTarget, name: &str, i: Option<usize>)
    requires
        call_ensures(ResumeQueue::target, (q, memory), r),
        call_ensures(find_name, (memory, name), i),
        name@ == q.calls@[q.next as int].name@,
    ensures
        r is Restart <==> name@ == "restart"@,
        name@ != "restart"@ ==> match i {
            Some(k) => r == ResumeTarget::Memory(k),
            None => r is Registry,
        },
{
}

/// A model is asked unless the conversation ends with an assistant's message
/// without calls, and nothing was pending.
pub proof fn law_when_a_model_is_needed(had_pending: bool, last: Option<(Role, bool)>, r: bool)
    requires
        call_ensures(needs_model, (had_pending, last), r),
    ensures
        !r <==> !had_pending && (last matches Some((role, has_calls)) && role is Assistant
            && !has_calls),
{
}

/// What a sub-agent hands to its caller: its answer, or the error that it has
/// none.
pub proof fn law_results_of_sub_agents(outcome: &ResumeOutcome, agent: &str, r: ChildResult)
    requires
        call_ensures(child_result, (outcome, agent), r),
        !(outcome is WaitingChild),
    ensures
        outcome matches ResumeOutcome::Final { content, .. } ==> r.text@ == content@ && !r.is_error,
        outcome is Cancelled ==> r.text@ == "Sub-agent `"@ + agent@ + "` was cancelled."@
            && r.is_error,
        outcome is Exhausted ==> r.text@ == "Sub-agent `"@ + agent@
            + "` exhausted tool-call rounds."@ && r.is_error,
{
}

/// How a finished frame goes on: it waits where a child does, hands its result
/// to the call that started it, or ends the conversation's turn at the root.
pub proof fn law_finished_frames(
    outcome: ResumeOutcome,
    frame: &Frame,
    r: CascadeStep,
    agent: &str,
    result: ChildResult,
    events: Vec<ServerEvent>,
)
    requires
        call_ensures(cascade, (outcome, frame), r),
        !(outcome is WaitingChild) ==> call_ensures(child_result, (&outcome, agent), result),
        agent@ == frame.agent_id@,
    ensures
        r is Defer <==> outcome is WaitingChild,
        r is Finish <==> !(outcome is WaitingChild) && frame.parent_tool_call_id is None,
        r matches CascadeStep::Propagate { tool_call_id, result: got } ==> Some(tool_call_id)
            == frame.parent_tool_call_id && got.text@ == result.text@ && got.is_error
            == result.is_error,
        r matches CascadeStep::Finish(e) ==> match outcome {
            ResumeOutcome::Final { content, message_id, input_tokens, output_tokens, truncated } => {
                &&& e@.len() == if truncated {
                    2int
                } else {
                    1int
                }
                &&& e@.last() == (ServerEvent::Done {
                    message_id,
                    stack_id: frame.id,
                    content,
                    input_tokens,
                    output_tokens,
                })
                &&& truncated ==> e@[0] == (ServerEvent::Truncated { output_tokens })
            },
            ResumeOutcome::Cancelled => e@.len() == 1 && (e@[0] matches ServerEvent::Error {
                message,
            } && message@ == "Interrotto dall'utente."@),
            _ => e@.len() == 1 && (e@[0] matches ServerEvent::Error { message } && message@
                == "Exceeded tool-call rounds without a final answer."@),
        },
{
}

/// A child's end is told twice: as the end of the call that started it, and as
/// its own, with a preview of what it said.
pub proof fn law_ends_of_sub_agents(
    tool_call_id: i64,
    result: &ChildResult,
    child: &Frame,
    parent: &str,
    r: (ServerEvent, ServerEvent),
    text: &str,
    shown: String,
)
    requires
        call_ensures(child_done, (tool_call_id, result, child, parent), r),
        call_ensures(preview, (text,), shown),
        text@ == result.text@,
    ensures
        result.is_error ==> (r.0 matches ServerEvent::ToolError { tool_call_id: c, error } && c
            == tool_call_id && error@ == result.text@),
        !result.is_error ==> (r.0 matches ServerEvent::ToolDone { tool_call_id: c, result: t } && c
            == tool_call_id && t@ == result.text@),
        r.1 matches ServerEvent::AgentDone { stack_id, agent_id, parent_agent_id, result_preview }
            && stack_id == child.id && agent_id@ == child.agent_id@ && parent_agent_id@ == parent@
            && result_preview@ == shown@,
{
}

/// A queue begins with its first call; the root's end is that of its outcome.
pub proof fn law_queues_begin(calls: Vec<PendingCall>, q: ResumeQueue, outcome: ResumeOutcome, id: i64, r: Vec<ServerEvent>)
    requires
        call_ensures(ResumeQueue::new, (calls,), q),
        call_ensures(root_ending, (outcome, id), r),
    ensures
        q.calls == calls && q.next == 0 && q.phase is AtCall,
        outcome is WaitingChild ==> r@.len() == 0,
        outcome is Cancelled ==> r@.len() == 1 && (r@[0] matches ServerEvent::Error { message }
            && message@ == "Interrotto dall'utente."@),
        outcome is Exhausted ==> r@.len() == 1 && (r@[0] matches ServerEvent::Error { message }
            && message@ == "Exceeded tool-call rounds without a final answer."@),
        outcome matches ResumeOutcome::Final {
            content,
            message_id,
            input_tokens,
            output_tokens,
            truncated,
        } ==> r@.len() == (if truncated {
            2int
        } else {
            1int
        }) && r@.last() == (ServerEvent::Done {
            message_id,
            stack_id: id,
            content,
            input_tokens,
            output_tokens,
        }),
{
}

} // verus!
