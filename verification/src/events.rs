//! Events that the core publishes to its clients.
use vstd::prelude::*;

verus! {

/// What happened.
#[derive(Debug, Clone)]
pub enum ServerEvent {
    /// A tool call waits for a human decision.
    ApprovalRequested { request_id: i64, tool_call_id: i64, tool_name: String },
    /// A waiting tool call was approved or rejected.
    ApprovalResolved { request_id: i64, tool_call_id: i64, approved: bool },
    /// A source started a new session.
    NewSession { session_id: i64 },
    /// A sub-agent started.
    AgentStart {
        stack_id: i64,
        parent_tool_call_id: i64,
        agent_id: String,
        parent_agent_id: String,
        depth: i64,
        prompt_preview: String,
    },
    /// A sub-agent finished.
    AgentDone {
        stack_id: i64,
        agent_id: String,
        parent_agent_id: String,
        result_preview: String,
    },
    /// A tool call returned.
    ToolDone { tool_call_id: i64, result: String },
    /// A tool call failed.
    ToolError { tool_call_id: i64, error: String },
    /// The model's answer was cut at its output limit.
    Truncated { output_tokens: Option<u32> },
    /// A turn ended with an answer.
    Done {
        message_id: i64,
        stack_id: i64,
        content: String,
        input_tokens: Option<u32>,
        output_tokens: Option<u32>,
    },
    /// A model failed and another takes over.
    ModelFallback { from: String, to: String, reason: String },
    /// A model failed and none takes over.
    LlmFailed { tried: Vec<String>, last_error: String },
    /// A turn ended without an answer.
    Error { message: String },
}

/// An event together with where it belongs.
#[derive(Debug, Clone)]
pub struct GlobalEvent {
    pub source: Option<String>,
    pub session_id: Option<i64>,
    pub event: ServerEvent,
}

} // verus!
