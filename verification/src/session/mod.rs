//! Chat sessions: the agent's turn, its tool calls, the messages it sends to
//! the model, and the resumption of interrupted work.
pub mod agents;
pub mod context;
pub mod dispatch;
pub mod fallback;
pub mod message;
pub mod prompt;
pub mod resume;
pub mod summary;
pub mod turn;
pub mod wire;
