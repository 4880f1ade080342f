//! One turn of an agent: rounds of model calls and tool calls until the model
//! gives a final answer, with fallback to other models when a call fails and
//! an approval before each tool.
//!
//! [`Turn`] holds the decisions. Whoever drives it performs the step it asks
//! for and reports what came of it.
use vstd::prelude::*;

use crate::approval::manager::{rejection_text, ApprovalDecision};
use crate::approval::rules::GateResult;
use crate::events::ServerEvent;
use crate::text::{
    contains_str, contains_text, copy_texts, find_from, lemma_find_from, lemma_lines_follow,
    lemma_split_plain, lines_of, occurs_at, split_lines, texts, trim, trimmed,
};
use crate::tools::{file_write_tools, is_file_write_tool};

verus! {

broadcast use vstd::seq_lib::group_seq_properties;

/// How many models are tried in one round before the turn fails.
pub const MAX_LLM_ATTEMPTS: usize = 3;

/// How many rounds a turn has unless configured otherwise.
pub const DEFAULT_MAX_TOOL_ROUNDS: usize = 20;

/// A tool call that has run, for the event bus.
#[derive(Debug)]
pub struct ToolCallEvent {
    pub name: String,
    pub arguments: Option<String>,
    pub result: Option<String>,
    pub status: String,
}

/// Where a turn stands.
#[derive(Debug, Clone, Copy, PartialEq, Eq, Structural)]
pub enum Phase {
    /// Between two rounds.
    Ready,
    /// The model is being called.
    Calling,
    /// Another model is being looked for.
    Selecting,
    /// The model's reply is being saved.
    Saving,
    /// Between two tool calls of a reply.
    AtCall,
    /// A tool call is recorded and stands before approval.
    Recorded,
    /// A tool call waits for a human.
    Waiting,
    /// A tool call runs.
    Running,
    /// The turn is over.
    Ended,
}

/// A turn in progress.
pub struct Turn {
    pub max_rounds: usize,
    /// Whether calls that need an approval are denied at once.
    pub auto_deny: bool,
    pub phase: Phase,
    /// How many rounds are complete.
    pub round: usize,
    pub model: String,
    /// The models tried in this round, the current one last.
    pub tried: Vec<String>,
    /// The names of the tools that the current reply calls.
    pub calls: Vec<String>,
    pub next_call: usize,
    /// The tool calls that ran so far.
    pub done: Vec<ToolCallEvent>,
}

/// How a turn ends.
pub enum TurnOutcome {
    /// The model gave a final answer.
    Final {
        content: String,
        message_id: i64,
        input_tokens: Option<u32>,
        output_tokens: Option<u32>,
        truncated: bool,
        /// All tool calls that ran during the turn.
        tool_calls: Vec<ToolCallEvent>,
    },
    Cancelled,
    /// The rounds are used up.
    Exhausted,
}

/// What to do at the start of a round.
#[derive(Debug, Clone, Copy, PartialEq, Eq, Structural)]
pub enum RoundStep {
    /// Build the messages for the current model and call it.
    CallModel,
    Cancelled,
    Exhausted,
}

/// What to do after a failed model call.
#[derive(Debug)]
pub enum FailureStep {
    /// Look for a model that was not tried in this round.
    SelectAnother,
    /// Send this event and fail the turn with the error.
    GiveUp(ServerEvent),
}

/// What to do with the next tool call of a reply.
#[derive(Debug, Clone, Copy, PartialEq, Eq, Structural)]
pub enum CallStep {
    /// Record the call and ask for approval.
    Record,
    /// No call is left: the round is over.
    RoundOver,
    Cancelled,
}

/// What to do with a recorded tool call.
#[derive(Debug)]
pub enum GateStep {
    Run,
    /// Mark the call as pending and ask the human.
    AskHuman,
    /// The call fails with this text.
    Fail(String),
    Cancelled,
}

/// What came of running a tool call.
#[derive(Debug)]
pub enum ToolRun {
    Done(String),
    Failed(String),
    /// The channel for the user's answer was closed.
    ChannelClosed,
}

/// What to do after a tool call ran.
#[derive(Debug, Clone, Copy, PartialEq, Eq, Structural)]
pub enum RunStep {
    /// Complete the call; `file_changed` says whether to announce a changed file.
    Complete { file_changed: bool },
    /// Mark the call as failed.
    Fail,
    /// Leave the call pending and end the turn.
    Cancelled,
}

/// Whether a model failure is worth another model: not where the request was
/// refused as such.
pub open spec fn is_retriable(message: Seq<char>) -> bool {
    !contains_text(message, "401"@) && !contains_text(message, "403"@) && !contains_text(
        message,
        "404"@,
    ) && !contains_text(message, "422"@)
}

pub fn is_retriable_llm_error(message: &str) -> (r: bool)
    ensures
        r == is_retriable(message@),
{
    !contains_str(message, "401") && !contains_str(message, "403") && !contains_str(message, "404")
        && !contains_str(message, "422")
}

/// The first line of a text; the text itself where it has no line.
pub open spec fn first_line_of(s: Seq<char>) -> Seq<char> {
    if lines_of(s).len() > 0 {
        lines_of(s)[0]
    } else {
        s
    }
}

pub fn first_line(s: &str) -> (r: String)
    ensures
        r@ == first_line_of(s@),
{
    let lines: Vec<String> = split_lines(s);
    assert(texts(lines@).len() == lines@.len());
    if lines.len() > 0 {
        assert(texts(lines@)[0] == lines@[0]@);
        lines[0].clone()
    } else {
        s.to_owned()
    }
}

/// Whether an event tells that every model tried has failed, the last one with
/// this error.
pub open spec fn is_llm_failed(e: ServerEvent, tried: Seq<Seq<char>>, error: Seq<char>) -> bool {
    e matches ServerEvent::LlmFailed { tried: t, last_error } && texts(t@) == tried && last_error@
        == error
}

/// Whether the approval rules are consulted for a call: they are unless the
/// session's context already allows the write.
pub fn needs_gate_check(name: &str, pre_allowed: bool) -> (r: bool)
    ensures
        r == !(file_write_tools().contains(name@) && pre_allowed),
{
    !(pre_allowed && is_file_write_tool(name))
}

/// Whether a reply with tool calls is announced: where it has text or the
/// model reported its usage.
pub fn announces_thinking(text: &str, input_tokens: Option<u32>) -> (r: bool)
    ensures
        r == (trimmed(text@).len() > 0 || input_tokens is Some),
{
    let t: String = trim(text);
    t.as_str().unicode_len() > 0 || input_tokens.is_some()
}

/// What a denied call returns to the model.
pub open spec fn denied_text() -> Seq<char> {
    "Tool call denied by approval policy."@
}

/// What a call returns to the model where nobody can approve it.
pub open spec fn auto_denied_text() -> Seq<char> {
    "Tool call auto-denied: this session does not support approval requests."@
}

/// Lexicographic order on triples.
pub open spec fn below(a: (nat, nat, nat), b: (nat, nat, nat)) -> bool {
    a.0 < b.0 || (a.0 == b.0 && (a.1 < b.1 || (a.1 == b.1 && a.2 < b.2)))
}

impl Turn {
    pub open spec fn rounds_left(&self) -> int {
        self.max_rounds - self.round
    }

    pub open spec fn calls_left(&self) -> int {
        self.calls@.len() - self.next_call
    }

    /// The rounds stay within their limit, and so do the models tried in a
    /// round; the current model is the last one tried.
    pub open spec fn wf(&self) -> bool {
        &&& self.round <= self.max_rounds
        &&& self.next_call <= self.calls@.len()
        &&& self.phase == Phase::Ready || self.phase == Phase::Ended || self.round < self.max_rounds
        &&& self.phase == Phase::Calling || self.phase == Phase::Selecting || self.phase
            == Phase::Saving ==> 1 <= self.tried@.len() <= MAX_LLM_ATTEMPTS && texts(
            self.tried@,
        ).last() == self.model@
        &&& self.phase == Phase::Selecting ==> self.tried@.len() < MAX_LLM_ATTEMPTS
        &&& self.phase == Phase::Recorded || self.phase == Phase::Waiting || self.phase
            == Phase::Running ==> self.next_call < self.calls@.len()
    }

    /// What is left to do; every step lowers it.
    pub open spec fn rank(&self) -> (nat, nat, nat) {
        let left = self.rounds_left() as nat;
        let models = (MAX_LLM_ATTEMPTS - self.tried@.len()) as nat;
        let calls = self.calls_left() as nat;
        match self.phase {
            Phase::Ready => (left, 2, 0),
            Phase::Calling => (left, 1, 2 * models + 2),
            Phase::Selecting => (left, 1, 2 * models + 1),
            Phase::Saving => (left, 1, 0),
            Phase::AtCall => (left, 0, 4 * calls + 3),
            Phase::Recorded => (left, 0, 4 * calls + 2),
            Phase::Waiting => (left, 0, 4 * calls + 1),
            Phase::Running => (left, 0, 4 * calls),
            Phase::Ended => (0, 0, 0),
        }
    }

    /// Whether a step changed the phase and nothing else.
    pub open spec fn moved_to(&self, before: &Turn, phase: Phase) -> bool {
        *self == Turn { phase, ..*before }
    }

    /// Whether the turn went on to the next tool call of the reply, with
    /// nothing else changed.
    pub open spec fn call_over(&self, before: &Turn) -> bool {
        *self == Turn {
            phase: Phase::AtCall,
            next_call: (before.next_call + 1) as usize,
            ..*before
        }
    }

    pub fn new(model: String, max_rounds: usize, auto_deny: bool) -> (r: Turn)
        ensures
            r.wf(),
            r.phase == Phase::Ready,
            r.round == 0,
            r.model == model,
            r.max_rounds == max_rounds,
            r.auto_deny == auto_deny,
            r.done@.len() == 0,
    {
        Turn {
            max_rounds,
            auto_deny,
            phase: Phase::Ready,
            round: 0,
            model,
            tried: Vec::new(),
            calls: Vec::new(),
            next_call: 0,
            done: Vec::new(),
        }
    }

    /// Starts a round. Once the rounds are used up the turn is exhausted;
    /// before that a cancellation ends it.
    pub fn begin_round(&mut self, cancelled: bool) -> (r: RoundStep)
        requires
            old(self).wf(),
            old(self).phase == Phase::Ready,
        ensures
            final(self).wf(),
            below(final(self).rank(), old(self).rank()),
            r == if old(self).round == old(self).max_rounds {
                RoundStep::Exhausted
            } else if cancelled {
                RoundStep::Cancelled
            } else {
                RoundStep::CallModel
            },
            r == RoundStep::CallModel ==> {
                &&& *final(self) == Turn {
                    phase: Phase::Calling,
                    tried: final(self).tried,
                    ..*old(self)
                }
                &&& texts(final(self).tried@) == seq![old(self).model@]
            },
            r != RoundStep::CallModel ==> final(self).moved_to(old(self), Phase::Ended),
    {
        if self.round == self.max_rounds {
            self.phase = Phase::Ended;
            return RoundStep::Exhausted;
        }
        if cancelled {
            self.phase = Phase::Ended;
            return RoundStep::Cancelled;
        }
        let mut tried: Vec<String> = Vec::new();
        tried.push(self.model.clone());
        assert(texts(tried@) =~= seq![self.model@]);
        self.tried = tried;
        self.phase = Phase::Calling;
        RoundStep::CallModel
    }

    /// The call was cancelled while in flight.
    pub fn call_cancelled(&mut self)
        requires
            old(self).wf(),
            old(self).phase == Phase::Calling,
        ensures
            final(self).wf(),
            final(self).moved_to(old(self), Phase::Ended),
            below(final(self).rank(), old(self).rank()),
    {
        self.phase = Phase::Ended;
    }

    /// The model replied.
    pub fn call_succeeded(&mut self)
        requires
            old(self).wf(),
            old(self).phase == Phase::Calling,
        ensures
            final(self).wf(),
            final(self).moved_to(old(self), Phase::Saving),
            below(final(self).rank(), old(self).rank()),
    {
        self.phase = Phase::Saving;
    }

    /// The model call failed. Another model is looked for where fewer than
    /// [`MAX_LLM_ATTEMPTS`] were tried and the failure is worth it; else the
    /// turn fails with the error.
    pub fn call_failed(&mut self, error: &str) -> (r: FailureStep)
        requires
            old(self).wf(),
            old(self).phase == Phase::Calling,
        ensures
            final(self).wf(),
            below(final(self).rank(), old(self).rank()),
            match r {
                FailureStep::SelectAnother => {
                    &&& old(self).may_fall_back(error@)
                    &&& final(self).moved_to(old(self), Phase::Selecting)
                },
                FailureStep::GiveUp(event) => {
                    &&& !old(self).may_fall_back(error@)
                    &&& final(self).moved_to(old(self), Phase::Ended)
                    &&& is_llm_failed(event, texts(old(self).tried@), error@)
                },
            },
    {
        if self.tried.len() < MAX_LLM_ATTEMPTS && is_retriable_llm_error(error) {
            self.phase = Phase::Selecting;
            FailureStep::SelectAnother
        } else {
            self.phase = Phase::Ended;
            FailureStep::GiveUp(self.failed_event(error))
        }
    }

    /// Whether another model is looked for after a failure.
    pub open spec fn may_fall_back(&self, error: Seq<char>) -> bool {
        self.tried@.len() < MAX_LLM_ATTEMPTS && is_retriable(error)
    }

    fn failed_event(&self, error: &str) -> (r: ServerEvent)
        ensures
            is_llm_failed(r, texts(self.tried@), error@),
    {
        ServerEvent::LlmFailed { tried: copy_texts(&self.tried), last_error: error.to_owned() }
    }

    /// Another model was found, and is called next in the same round. The
    /// event tells of the change; `error` is what the model before failed with.
    pub fn model_selected(&mut self, next: String, error: &str) -> (r: ServerEvent)
        requires
            old(self).wf(),
            old(self).phase == Phase::Selecting,
        ensures
            final(self).wf(),
            below(final(self).rank(), old(self).rank()),
            *final(self) == (Turn {
                phase: Phase::Calling,
                model: next,
                tried: final(self).tried,
                ..*old(self)
            }),
            texts(final(self).tried@) == texts(old(self).tried@).push(next@),
            r matches ServerEvent::ModelFallback { from, to, reason } && from@ == old(self).model@
                && to@ == next@ && reason@ == first_line_of(error@),
    {
        let ghost had = texts(self.tried@);
        let event: ServerEvent = ServerEvent::ModelFallback {
            from: self.model.clone(),
            to: next.clone(),
            reason: first_line(error),
        };
        self.tried.push(next.clone());
        assert(texts(self.tried@) =~= had.push(next@));
        self.model = next;
        self.phase = Phase::Calling;
        event
    }

    /// No other model is available: the turn fails with the last error. The
    /// event names the models that were tried.
    pub fn no_model_selected(&mut self, error: &str) -> (r: ServerEvent)
        requires
            old(self).wf(),
            old(self).phase == Phase::Selecting,
        ensures
            final(self).wf(),
            final(self).moved_to(old(self), Phase::Ended),
            below(final(self).rank(), old(self).rank()),
            is_llm_failed(r, texts(old(self).tried@), error@),
    {
        self.phase = Phase::Ended;
        self.failed_event(error)
    }

    /// The final answer is saved: the turn is over. Its outcome carries every
    /// tool call that ran.
    pub fn answer_saved(
        self,
        content: String,
        message_id: i64,
        input_tokens: Option<u32>,
        output_tokens: Option<u32>,
        truncated: bool,
    ) -> (r: TurnOutcome)
        requires
            self.wf(),
            self.phase == Phase::Saving,
        ensures
            r == (TurnOutcome::Final {
                content,
                message_id,
                input_tokens,
                output_tokens,
                truncated,
                tool_calls: self.done,
            }),
    {
        TurnOutcome::Final {
            content,
            message_id,
            input_tokens,
            output_tokens,
            truncated,
            tool_calls: self.done,
        }
    }

    /// A reply with tool calls is saved: they are taken one by one.
    pub fn calls_saved(&mut self, calls: Vec<String>)
        requires
            old(self).wf(),
            old(self).phase == Phase::Saving,
        ensures
            final(self).wf(),
            below(final(self).rank(), old(self).rank()),
            *final(self) == (Turn { phase: Phase::AtCall, calls, next_call: 0, ..*old(self) }),
    {
        self.calls = calls;
        self.next_call = 0;
        self.phase = Phase::AtCall;
    }

    /// Turns to the next tool call. Once none is left the round is over; before
    /// that a cancellation ends the turn.
    pub fn begin_call(&mut self, cancelled: bool) -> (r: CallStep)
        requires
            old(self).wf(),
            old(self).phase == Phase::AtCall,
        ensures
            final(self).wf(),
            below(final(self).rank(), old(self).rank()),
            r == if old(self).next_call == old(self).calls@.len() {
                CallStep::RoundOver
            } else if cancelled {
                CallStep::Cancelled
            } else {
                CallStep::Record
            },
            match r {
                CallStep::RoundOver => *final(self) == (Turn {
                    phase: Phase::Ready,
                    round: (old(self).round + 1) as usize,
                    ..*old(self)
                }),
                CallStep::Cancelled => final(self).moved_to(old(self), Phase::Ended),
                CallStep::Record => final(self).moved_to(old(self), Phase::Recorded),
            },
    {
        if self.next_call == self.calls.len() {
            self.round = self.round + 1;
            self.phase = Phase::Ready;
            CallStep::RoundOver
        } else if cancelled {
            self.phase = Phase::Ended;
            CallStep::Cancelled
        } else {
            self.phase = Phase::Recorded;
            CallStep::Record
        }
    }

    /// It was decided on the recorded call. It runs only where the decision
    /// allows it; a required approval is asked for, unless this session denies
    /// such calls at once.
    pub fn gated(&mut self, gate: GateResult) -> (r: GateStep)
        requires
            old(self).wf(),
            old(self).phase == Phase::Recorded,
        ensures
            final(self).wf(),
            below(final(self).rank(), old(self).rank()),
            match gate {
                GateResult::Allow => r is Run && final(self).moved_to(old(self), Phase::Running),
                GateResult::Deny => r matches GateStep::Fail(t) && t@ == denied_text()
                    && final(self).call_over(old(self)),
                GateResult::Require => if old(self).auto_deny {
                    r matches GateStep::Fail(t) && t@ == auto_denied_text() && final(self).call_over(
                        old(self),
                    )
                } else {
                    r is AskHuman && final(self).moved_to(old(self), Phase::Waiting)
                },
            },
    {
        match gate {
            GateResult::Allow => {
                self.phase = Phase::Running;
                GateStep::Run
            },
            GateResult::Deny => {
                self.advance();
                GateStep::Fail("Tool call denied by approval policy.".to_owned())
            },
            GateResult::Require => if self.auto_deny {
                self.advance();
                GateStep::Fail(
                    "Tool call auto-denied: this session does not support approval requests.".to_owned(),
                )
            } else {
                self.phase = Phase::Waiting;
                GateStep::AskHuman
            },
        }
    }

    /// The human has decided on the waiting call; `None` where the channel was
    /// closed before that.
    pub fn decided(&mut self, decision: Option<ApprovalDecision>) -> (r: GateStep)
        requires
            old(self).wf(),
            old(self).phase == Phase::Waiting,
        ensures
            final(self).wf(),
            below(final(self).rank(), old(self).rank()),
            match decision {
                Some(ApprovalDecision::Approved) => r is Run && final(self).moved_to(
                    old(self),
                    Phase::Running,
                ),
                Some(ApprovalDecision::Rejected { note }) => r matches GateStep::Fail(t) && t@
                    == rejection_text(note@) && final(self).call_over(old(self)),
                None => r is Cancelled && final(self).moved_to(old(self), Phase::Ended),
            },
    {
        match decision {
            Some(ApprovalDecision::Approved) => {
                self.phase = Phase::Running;
                GateStep::Run
            },
            Some(ApprovalDecision::Rejected { note }) => {
                self.advance();
                GateStep::Fail(ApprovalDecision::rejection_message(note.as_str()))
            },
            None => {
                self.phase = Phase::Ended;
                GateStep::Cancelled
            },
        }
    }

    /// The call has run. What it returned is kept for the event bus, and the
    /// next call follows; a closed channel ends the turn with the call still
    /// pending. A file is announced as changed where a file-write tool named
    /// one and succeeded.
    pub fn ran(&mut self, run: ToolRun, arguments: String, has_path: bool) -> (r: RunStep)
        requires
            old(self).wf(),
            old(self).phase == Phase::Running,
        ensures
            final(self).wf(),
            below(final(self).rank(), old(self).rank()),
            ({
                let name = old(self).calls@[old(self).next_call as int];
                match run {
                    ToolRun::Done(result) => {
                        &&& r == RunStep::Complete {
                            file_changed: file_write_tools().contains(name@) && has_path,
                        }
                        &&& final(self).call_recorded(old(self), name, arguments, result, "done"@)
                    },
                    ToolRun::Failed(message) => {
                        &&& r == RunStep::Fail
                        &&& final(self).call_recorded(old(self), name, arguments, message, "failed"@)
                    },
                    ToolRun::ChannelClosed => r == RunStep::Cancelled && final(self).moved_to(
                        old(self),
                        Phase::Ended,
                    ),
                }
            }),
    {
        let name: String = self.calls[self.next_call].clone();
        match run {
            ToolRun::Done(result) => {
                let file_changed: bool = has_path && is_file_write_tool(name.as_str());
                self.record(name, arguments, result, "done");
                RunStep::Complete { file_changed }
            },
            ToolRun::Failed(message) => {
                self.record(name, arguments, message, "failed");
                RunStep::Fail
            },
            ToolRun::ChannelClosed => {
                self.phase = Phase::Ended;
                RunStep::Cancelled
            },
        }
    }

    /// Whether the turn went on to the next tool call with this one added to
    /// those that ran.
    pub open spec fn call_recorded(
        &self,
        before: &Turn,
        name: String,
        arguments: String,
        result: String,
        status: Seq<char>,
    ) -> bool {
        &&& *self == Turn {
            phase: Phase::AtCall,
            next_call: (before.next_call + 1) as usize,
            done: self.done,
            ..*before
        }
        &&& self.done@.len() == before.done@.len() + 1
        &&& self.done@.drop_last() == before.done@
        &&& self.done@.last().name == name
        &&& self.done@.last().arguments == Some(arguments)
        &&& self.done@.last().result == Some(result)
        &&& self.done@.last().status@ == status
    }

    fn record(&mut self, name: String, arguments: String, result: String, status: &str)
        requires
            old(self).wf(),
            old(self).phase == Phase::Running,
        ensures
            final(self).wf(),
            below(final(self).rank(), old(self).rank()),
            final(self).call_recorded(old(self), name, arguments, result, status@),
    {
        self.done.push(
            ToolCallEvent {
                name,
                arguments: Some(arguments),
                result: Some(result),
                status: status.to_owned(),
            },
        );
        assert(self.done@.drop_last() =~= old(self).done@);
        self.advance();
    }

    fn advance(&mut self)
        requires
            old(self).next_call < old(self).calls@.len(),
        ensures
            final(self).call_over(old(self)),
            final(self).next_call == old(self).next_call + 1,
    {
        let n: usize = self.calls.len();
        assert(self.next_call < n);
        self.next_call = self.next_call + 1;
        self.phase = Phase::AtCall;
    }
}

/// Whether a text stands somewhere in another.
pub open spec fn holds(s: Seq<char>, p: Seq<char>) -> bool {
    exists|i: int| 0 <= i && i + p.len() <= s.len() && #[trigger] s.subrange(i, i + p.len()) == p
}

proof fn lemma_holds(s: Seq<char>, p: Seq<char>)
    ensures
        contains_text(s, p) == holds(s, p),
{
    lemma_find_from(s, p, 0);
    if contains_text(s, p) {
        let i = find_from(s, p, 0).unwrap();
        assert(s.subrange(i, i + p.len()) == p);
    }
    if holds(s, p) {
        let i = choose|i: int|
            0 <= i && i + p.len() <= s.len() && #[trigger] s.subrange(i, i + p.len()) == p;
        assert(occurs_at(s, p, i));
    }
}

/// A failure is worth another model unless its text holds one of the codes for
/// a request that was refused as such: 401, 403, 404 and 422.
pub proof fn law_which_failures_are_retried(message: &str, r: bool)
    requires
        call_ensures(is_retriable_llm_error, (message,), r),
    ensures
        r <==> !holds(message@, "401"@) && !holds(message@, "403"@) && !holds(message@, "404"@)
            && !holds(message@, "422"@),
{
    lemma_holds(message@, "401"@);
    lemma_holds(message@, "403"@);
    lemma_holds(message@, "404"@);
    lemma_holds(message@, "422"@);
}

/// After a failed call another model is asked for exactly where fewer than
/// three were tried and the text of the error holds none of the four codes; on
/// no other failure does the turn give up.
pub proof fn law_when_another_model_is_asked_for(t: &mut Turn, error: &str, r: FailureStep)
    requires
        call_ensures(Turn::call_failed, (t, error), r),
    ensures
        r is SelectAnother <==> old(t).tried@.len() < 3 && !holds(error@, "401"@) && !holds(
            error@,
            "403"@,
        ) && !holds(error@, "404"@) && !holds(error@, "422"@),
        r is SelectAnother ==> final(t).phase == Phase::Selecting,
        r matches FailureStep::GiveUp(e) ==> {
            &&& final(t).phase == Phase::Ended
            &&& e matches ServerEvent::LlmFailed { tried, last_error } && texts(tried@) == texts(
                old(t).tried@,
            ) && last_error@ == error@
        },
        final(t).tried == old(t).tried,
        final(t).model == old(t).model,
        final(t).round == old(t).round,
        final(t).done == old(t).done,
{
    lemma_holds(error@, "401"@);
    lemma_holds(error@, "403"@);
    lemma_holds(error@, "404"@);
    lemma_holds(error@, "422"@);
}

/// The model that takes over is called next in the same round, and counts as
/// tried; the event names both models and the first line of the error.
pub proof fn law_another_model_takes_over(t: &mut Turn, next: String, error: &str, r: ServerEvent, line: String)
    requires
        call_ensures(Turn::model_selected, (t, next, error), r),
        call_ensures(first_line, (error,), line),
    ensures
        final(t).phase == Phase::Calling,
        final(t).model@ == next@,
        texts(final(t).tried@) == texts(old(t).tried@).push(next@),
        final(t).round == old(t).round,
        final(t).done == old(t).done,
        r matches ServerEvent::ModelFallback { from, to, reason } && from@ == old(t).model@ && to@
            == next@ && reason@ == line@,
{
}

/// Where no other model is left the turn is over, and every model tried in the
/// round is named.
pub proof fn law_no_model_is_left(t: &mut Turn, error: &str, r: ServerEvent)
    requires
        call_ensures(Turn::no_model_selected, (t, error), r),
    ensures
        final(t).phase == Phase::Ended,
        final(t).tried == old(t).tried,
        r matches ServerEvent::LlmFailed { tried, last_error } && texts(tried@) == texts(
            old(t).tried@,
        ) && last_error@ == error@,
{
}

/// A turn begins with a round of its own model, and each round tries that
/// model first. The rounds are counted up to their limit, whatever happens; a
/// cancellation ends a turn that has rounds left.
pub proof fn law_rounds(t: &mut Turn, cancelled: bool, r: RoundStep)
    requires
        call_ensures(Turn::begin_round, (t, cancelled), r),
        old(t).wf(),
    ensures
        r == RoundStep::Exhausted <==> old(t).round == old(t).max_rounds,
        r == RoundStep::Cancelled <==> old(t).round < old(t).max_rounds && cancelled,
        r == RoundStep::CallModel ==> final(t).phase == Phase::Calling && final(t).tried@.len() == 1
            && final(t).tried@[0]@ == old(t).model@,
        r != RoundStep::CallModel ==> final(t).phase == Phase::Ended,
        final(t).round == old(t).round,
        final(t).model == old(t).model,
        final(t).done == old(t).done,
{
    if r == RoundStep::CallModel {
        assert(texts(final(t).tried@)[0] == final(t).tried@[0]@);
        assert(texts(final(t).tried@).len() == 1);
    }
}

/// The calls of a reply are taken one by one, in order, and once all are taken
/// the round is over. A cancellation stops before the next call.
pub proof fn law_calls_are_taken_in_order(t: &mut Turn, cancelled: bool, r: CallStep)
    requires
        call_ensures(Turn::begin_call, (t, cancelled), r),
        old(t).wf(),
        old(t).phase == Phase::AtCall,
    ensures
        r == CallStep::RoundOver <==> old(t).next_call == old(t).calls@.len(),
        r == CallStep::Record <==> old(t).next_call < old(t).calls@.len() && !cancelled,
        r == CallStep::RoundOver ==> final(t).round == old(t).round + 1 && final(t).phase
            == Phase::Ready,
        r == CallStep::Record ==> final(t).phase == Phase::Recorded && final(t).next_call
            == old(t).next_call,
        r == CallStep::Cancelled ==> final(t).phase == Phase::Ended,
        final(t).calls == old(t).calls,
        final(t).done == old(t).done,
{
}

/// Saved calls are those of the reply, from the first on.
pub proof fn law_saved_calls(t: &mut Turn, calls: Vec<String>, r: ())
    requires
        call_ensures(Turn::calls_saved, (t, calls), r),
    ensures
        final(t).calls == calls,
        final(t).next_call == 0,
        final(t).phase == Phase::AtCall,
        final(t).round == old(t).round,
        final(t).done == old(t).done,
{
}

/// A call runs at once only where it is allowed. A denied one fails and the
/// next call follows; where an approval is required a human is asked, unless
/// the session denies such calls.
pub proof fn law_calls_run_only_where_allowed(t: &mut Turn, gate: GateResult, r: GateStep)
    requires
        call_ensures(Turn::gated, (t, gate), r),
        old(t).wf(),
        old(t).phase == Phase::Recorded,
    ensures
        r is Run <==> gate == GateResult::Allow,
        r is AskHuman <==> gate == GateResult::Require && !old(t).auto_deny,
        r is Fail <==> gate == GateResult::Deny || (gate == GateResult::Require && old(t).auto_deny),
        r is Run ==> final(t).phase == Phase::Running && final(t).next_call == old(t).next_call,
        r is AskHuman ==> final(t).phase == Phase::Waiting && final(t).next_call
            == old(t).next_call,
        r matches GateStep::Fail(text) ==> final(t).phase == Phase::AtCall && final(t).next_call
            == old(t).next_call + 1 && text@ == if gate == GateResult::Deny {
            "Tool call denied by approval policy."@
        } else {
            "Tool call auto-denied: this session does not support approval requests."@
        },
        final(t).done == old(t).done,
{
}

/// A call that waits for a human runs only once it is approved; a rejection
/// fails it with the human's words and the next call follows.
pub proof fn law_a_human_decides(t: &mut Turn, decision: Option<ApprovalDecision>, r: GateStep)
    requires
        call_ensures(Turn::decided, (t, decision), r),
        old(t).wf(),
        old(t).phase == Phase::Waiting,
    ensures
        r is Run <==> decision == Some(ApprovalDecision::Approved),
        r is Cancelled <==> decision is None,
        r is Run ==> final(t).phase == Phase::Running && final(t).next_call == old(t).next_call,
        r is Cancelled ==> final(t).phase == Phase::Ended,
        decision matches Some(ApprovalDecision::Rejected { note }) ==> r matches GateStep::Fail(
            text,
        ) && text@ == rejection_text(note@) && final(t).phase == Phase::AtCall
            && final(t).next_call == old(t).next_call + 1,
        final(t).done == old(t).done,
{
}

/// A call that ran is kept with its name, its arguments, what it returned and
/// how it ended, and the next call follows; a file counts as changed where a
/// tool that writes files named one and succeeded.
pub proof fn law_calls_are_recorded(
    t: &mut Turn,
    run: ToolRun,
    arguments: String,
    has_path: bool,
    r: RunStep,
    writes: bool,
    name: &str,
)
    requires
        call_ensures(Turn::ran, (t, run, arguments, has_path), r),
        call_ensures(is_file_write_tool, (name,), writes),
        old(t).wf(),
        old(t).phase == Phase::Running,
        name@ == old(t).calls@[old(t).next_call as int]@,
    ensures
        r == RunStep::Cancelled <==> run is ChannelClosed,
        r == RunStep::Fail <==> run is Failed,
        run is Done ==> r == (RunStep::Complete { file_changed: has_path && writes }),
        run is ChannelClosed ==> final(t).phase == Phase::Ended && final(t).done == old(t).done,
        !(run is ChannelClosed) ==> {
            &&& final(t).phase == Phase::AtCall
            &&& final(t).next_call == old(t).next_call + 1
            &&& final(t).done@.len() == old(t).done@.len() + 1
            &&& final(t).done@.drop_last() == old(t).done@
            &&& final(t).done@.last().name@ == name@
            &&& final(t).done@.last().arguments == Some(arguments)
        },
        run matches ToolRun::Done(text) ==> final(t).done@.last().result == Some(text)
            && final(t).done@.last().status@ == "done"@,
        run matches ToolRun::Failed(text) ==> final(t).done@.last().result == Some(text)
            && final(t).done@.last().status@ == "failed"@,
{
}

/// An answer ends the turn with its text and every call that ran.
pub proof fn law_an_answer_ends_the_turn(
    t: Turn,
    content: String,
    message_id: i64,
    input_tokens: Option<u32>,
    output_tokens: Option<u32>,
    truncated: bool,
    r: TurnOutcome,
)
    requires
        call_ensures(
            Turn::answer_saved,
            (t, content, message_id, input_tokens, output_tokens, truncated),
            r,
        ),
    ensures
        r matches TurnOutcome::Final {
            content: c,
            message_id: m,
            input_tokens: i,
            output_tokens: o,
            truncated: u,
            tool_calls,
        } && c@ == content@ && m == message_id && i == input_tokens && o == output_tokens && u
            == truncated && tool_calls@ == t.done@,
{
}

/// The first line of a text is what stands before its first line break, or the
/// text where there is none.
pub proof fn law_first_line(line: Seq<char>, rest: Seq<char>, s: &str, r: String)
    requires
        call_ensures(first_line, (s,), r),
        forall|i: int| 0 <= i < line.len() ==> #[trigger] line[i] != '\n',
        s@ == line + seq!['\n'] + rest || s@ == line,
    ensures
        s@ == line ==> r@ == line,
        s@ != line ==> r@ == if line.len() > 0 && line.last() == '\r' {
            line.drop_last()
        } else {
            line
        },
{
    if s@ == line {
        lemma_split_plain(line, '\n');
        assert(seq![line].drop_last() =~= Seq::<Seq<char>>::empty());
        if line.len() > 0 {
            assert(lines_of(line) =~= seq![line]);
        }
    } else {
        lemma_lines_follow(line, rest);
    }
}

/// The rules are asked about every call but a file write that the session's
/// context allows.
pub proof fn law_when_the_rules_are_asked(name: &str, pre_allowed: bool, r: bool, writes: bool)
    requires
        call_ensures(needs_gate_check, (name, pre_allowed), r),
        call_ensures(is_file_write_tool, (name,), writes),
    ensures
        !r <==> writes && pre_allowed,
{
}

/// A reply with calls is announced where it says something or its cost is
/// known.
pub proof fn law_when_thinking_is_announced(text: &str, input_tokens: Option<u32>, r: bool, t: String)
    requires
        call_ensures(announces_thinking, (text, input_tokens), r),
        call_ensures(trim, (text,), t),
    ensures
        r <==> t@.len() > 0 || input_tokens is Some,
{
}

/// A turn begins with nothing done; a call that was cancelled ends it, and one
/// that was answered is saved.
pub proof fn law_turns_begin_and_end(model: String, rounds: usize, deny: bool, fresh: Turn, a: &mut Turn, b: &mut Turn)
    requires
        call_ensures(Turn::new, (model, rounds, deny), fresh),
        call_ensures(Turn::call_cancelled, (a,), ()),
        call_ensures(Turn::call_succeeded, (b,), ()),
    ensures
        fresh.phase is Ready && fresh.round == 0 && fresh.max_rounds == rounds && fresh.model
            == model && fresh.auto_deny == deny && fresh.done@.len() == 0,
        final(a).phase is Ended && final(a).round == old(a).round && final(a).model == old(a).model,
        final(b).phase is Saving && final(b).round == old(b).round && final(b).model
            == old(b).model && final(b).done == old(b).done,
{
}

} // verus!
