//! Handling a user message: what goes into the turn, and how its end is
//! announced.
use vstd::prelude::*;

use crate::db::chat_history::Role;
use crate::events::ServerEvent;
use crate::numerals::{decimal_nat, usize_text};
use crate::session::turn::{ToolCallEvent, TurnOutcome};
use crate::text::opt_text;

verus! {

broadcast use vstd::seq_lib::group_seq_properties;

/// The memories of the session and the caller's own framing as one text, the
/// framing last.
pub fn merge_dynamic(memories: Option<String>, framing: Option<String>) -> (r: Option<String>)
    ensures
        opt_text(r) == match (memories, framing) {
            (Some(m), Some(f)) => Some(m@ + "\n\n"@ + f@),
            (Some(m), None) => Some(m@),
            (None, Some(f)) => Some(f@),
            (None, None) => None,
        },
{
    match (memories, framing) {
        (Some(m), Some(f)) => {
            let mut t: String = m;
            t.append("\n\n");
            t.append(f.as_str());
            Some(t)
        },
        (Some(m), None) => Some(m),
        (None, Some(f)) => Some(f),
        (None, None) => None,
    }
}

/// Whether the last message of a conversation was left without an answer, so
/// that it has to be marked as failed before the next message is added.
pub fn is_orphaned(last: Option<Role>) -> (r: bool)
    ensures
        r == (last == Some(Role::User) || last == Some(Role::Agent)),
{
    match last {
        Some(role) => role == Role::User || role == Role::Agent,
        None => false,
    }
}

/// A message as published on the event bus.
pub struct ChatEvent {
    pub session_id: i64,
    pub stack_id: i64,
    pub message_id: i64,
    pub role: Role,
    pub content: String,
    pub is_synthetic: bool,
    pub is_interactive: bool,
    pub is_ephemeral: bool,
    pub tool_calls: Vec<ToolCallEvent>,
}

/// What is known of a turn besides its outcome.
pub struct TurnContext {
    pub session_id: i64,
    pub stack_id: i64,
    pub user_message_id: i64,
    pub user_content: String,
    pub is_synthetic: bool,
    pub is_interactive: bool,
    pub is_ephemeral: bool,
    pub max_tool_rounds: usize,
}

/// How a message ends.
pub struct MessageEnd {
    /// The events for the client, in order.
    pub events: Vec<ServerEvent>,
    /// The input tokens of the turn, to be kept for the next one.
    pub last_input_tokens: Option<u32>,
    /// The user's message and the answer for the event bus, or the error with
    /// which the message fails.
    pub result: Result<(ChatEvent, ChatEvent), String>,
}

/// The text shown to the user where the rounds are used up.
pub open spec fn exceeded_text(rounds: nat) -> Seq<char> {
    "Exceeded "@ + decimal_nat(rounds) + " tool-call rounds without a final answer."@
}

/// The error with which a message fails where the rounds are used up.
pub open spec fn exhausted_text(rounds: nat) -> Seq<char> {
    "tool-call loop exhausted after "@ + decimal_nat(rounds) + " rounds without a final answer"@
}

/// Ends a message: an answer is announced and published together with the
/// user's message; a cancelled or exhausted turn is an error.
pub fn finish_message(cx: TurnContext, outcome: TurnOutcome) -> (r: MessageEnd)
    ensures
        match outcome {
            TurnOutcome::Final {
                content,
                message_id,
                input_tokens,
                output_tokens,
                truncated,
                tool_calls,
            } => {
                let done = ServerEvent::Done {
                    message_id,
                    stack_id: cx.stack_id,
                    content,
                    input_tokens,
                    output_tokens,
                };
                &&& r.events@ == if truncated {
                    seq![ServerEvent::Truncated { output_tokens }, done]
                } else {
                    seq![done]
                }
                &&& r.last_input_tokens == input_tokens
                &&& r.result matches Ok((user, assistant)) && {
                    &&& user.session_id == cx.session_id && assistant.session_id == cx.session_id
                    &&& user.stack_id == cx.stack_id && assistant.stack_id == cx.stack_id
                    &&& user.message_id == cx.user_message_id && assistant.message_id == message_id
                    &&& user.role == Role::User && assistant.role == Role::Assistant
                    &&& user.content == cx.user_content && assistant.content == content
                    &&& user.is_synthetic == cx.is_synthetic && !assistant.is_synthetic
                    &&& user.is_interactive == cx.is_interactive && assistant.is_interactive
                        == cx.is_interactive
                    &&& user.is_ephemeral == cx.is_ephemeral && assistant.is_ephemeral
                        == cx.is_ephemeral
                    &&& user.tool_calls@.len() == 0 && assistant.tool_calls == tool_calls
                }
            },
            TurnOutcome::Cancelled => {
                &&& r.events@.len() == 1
                &&& r.events@[0] matches ServerEvent::Error { message } && message@
                    == "Interrotto dall'utente."@
                &&& r.last_input_tokens is None
                &&& r.result matches Err(e) && e@ == "Turn cancelled by user"@
            },
            TurnOutcome::Exhausted => {
                &&& r.events@.len() == 1
                &&& r.events@[0] matches ServerEvent::Error { message } && message@
                    == exceeded_text(cx.max_tool_rounds as nat)
                &&& r.last_input_tokens is None
                &&& r.result matches Err(e) && e@ == exhausted_text(cx.max_tool_rounds as nat)
            },
        },
{
    let mut events: Vec<ServerEvent> = Vec::new();
    match outcome {
        TurnOutcome::Final {
            content,
            message_id,
            input_tokens,
            output_tokens,
            truncated,
            tool_calls,
        } => {
            if truncated {
                events.push(ServerEvent::Truncated { output_tokens });
            }
            events.push(
                ServerEvent::Done {
                    message_id,
                    stack_id: cx.stack_id,
                    content: content.clone(),
                    input_tokens,
                    output_tokens,
                },
            );
            assert(events@ =~= if truncated {
                seq![
                    ServerEvent::Truncated { output_tokens },
                    ServerEvent::Done {
                        message_id,
                        stack_id: cx.stack_id,
                        content,
                        input_tokens,
                        output_tokens,
                    },
                ]
            } else {
                seq![
                    ServerEvent::Done {
                        message_id,
                        stack_id: cx.stack_id,
                        content,
                        input_tokens,
                        output_tokens,
                    },
                ]
            });
            let user: ChatEvent = ChatEvent {
                session_id: cx.session_id,
                stack_id: cx.stack_id,
                message_id: cx.user_message_id,
                role: Role::User,
                content: cx.user_content,
                is_synthetic: cx.is_synthetic,
                is_interactive: cx.is_interactive,
                is_ephemeral: cx.is_ephemeral,
                tool_calls: Vec::new(),
            };
            let assistant: ChatEvent = ChatEvent {
                session_id: cx.session_id,
                stack_id: cx.stack_id,
                message_id,
                role: Role::Assistant,
                content,
                is_synthetic: false,
                is_interactive: cx.is_interactive,
                is_ephemeral: cx.is_ephemeral,
                tool_calls,
            };
            MessageEnd { events, last_input_tokens: input_tokens, result: Ok((user, assistant)) }
        },
        TurnOutcome::Cancelled => {
            events.push(ServerEvent::Error { message: "Interrotto dall'utente.".to_owned() });
            MessageEnd {
                events,
                last_input_tokens: None,
                result: Err("Turn cancelled by user".to_owned()),
            }
        },
        TurnOutcome::Exhausted => {
            let rounds: String = usize_text(cx.max_tool_rounds);
            let mut shown: String = "Exceeded ".to_owned();
            shown.append(rounds.as_str());
            shown.append(" tool-call rounds without a final answer.");
            events.push(ServerEvent::Error { message: shown });
            let mut e: String = "tool-call loop exhausted after ".to_owned();
            e.append(rounds.as_str());
            e.append(" rounds without a final answer");
            MessageEnd { events, last_input_tokens: None, result: Err(e) }
        },
    }
}

/// The memories and the framing become one text, the framing last, with an
/// empty line between the two where there are both.
pub proof fn law_merged_texts(memories: Option<String>, framing: Option<String>, r: Option<String>)
    requires
        call_ensures(merge_dynamic, (memories, framing), r),
    ensures
        r is None <==> memories is None && framing is None,
        memories is Some && framing is None ==> r->Some_0@ == memories->Some_0@,
        memories is None && framing is Some ==> r->Some_0@ == framing->Some_0@,
        memories is Some && framing is Some ==> r->Some_0@ == memories->Some_0@ + "\n\n"@
            + framing->Some_0@,
{
}

/// A conversation that ends with what somebody asked was left without an
/// answer.
pub proof fn law_orphaned_conversations(last: Option<Role>, r: bool)
    requires
        call_ensures(is_orphaned, (last,), r),
    ensures
        r <==> last is Some && (last->Some_0 is User || last->Some_0 is Agent),
{
}

/// An answer is announced once, last, behind a warning where it was cut off; it
/// is recorded as the assistant's, beside the message that it answers.
pub proof fn law_an_answer_is_announced(
    cx: TurnContext,
    content: String,
    message_id: i64,
    input_tokens: Option<u32>,
    output_tokens: Option<u32>,
    truncated: bool,
    tool_calls: Vec<ToolCallEvent>,
    r: MessageEnd,
)
    requires
        call_ensures(
            finish_message,
            (
                cx,
                TurnOutcome::Final {
                    content,
                    message_id,
                    input_tokens,
                    output_tokens,
                    truncated,
                    tool_calls,
                },
            ),
            r,
        ),
    ensures
        r.events@.len() == if truncated {
            2int
        } else {
            1int
        },
        r.events@.last() == (ServerEvent::Done {
            message_id,
            stack_id: cx.stack_id,
            content,
            input_tokens,
            output_tokens,
        }),
        truncated ==> r.events@[0] == (ServerEvent::Truncated { output_tokens }),
        r.last_input_tokens == input_tokens,
        r.result is Ok,
        ({
            let (user, assistant) = r.result->Ok_0;
            &&& user.message_id == cx.user_message_id && user.content@ == cx.user_content@
            &&& user.role is User && assistant.role is Assistant
            &&& assistant.message_id == message_id && assistant.content@ == content@
            &&& assistant.tool_calls@ == tool_calls@ && user.tool_calls@.len() == 0
            &&& user.is_synthetic == cx.is_synthetic && !assistant.is_synthetic
            &&& user.session_id == cx.session_id == assistant.session_id
            &&& user.stack_id == cx.stack_id == assistant.stack_id
            &&& user.is_ephemeral == cx.is_ephemeral && assistant.is_ephemeral == cx.is_ephemeral
            &&& user.is_interactive == cx.is_interactive && assistant.is_interactive == cx.is_interactive
        }),
{
}

/// A turn without an answer is announced as an error and recorded as none.
pub proof fn law_a_turn_without_an_answer(cx: TurnContext, outcome: TurnOutcome, r: MessageEnd)
    requires
        call_ensures(finish_message, (cx, outcome), r),
        !(outcome is Final),
    ensures
        r.result is Err,
        r.last_input_tokens is None,
        r.events@.len() == 1,
        r.events@[0] matches ServerEvent::Error { message } && message@ == if outcome is Cancelled {
            "Interrotto dall'utente."@
        } else {
            "Exceeded "@ + decimal_nat(cx.max_tool_rounds as nat)
                + " tool-call rounds without a final answer."@
        },
        r.result->Err_0@ == if outcome is Cancelled {
            "Turn cancelled by user"@
        } else {
            "tool-call loop exhausted after "@ + decimal_nat(cx.max_tool_rounds as nat)
                + " rounds without a final answer"@
        },
{
}

} // verus!
