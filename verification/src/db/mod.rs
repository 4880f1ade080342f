//! Rows of the store, and the rules that hold between them.
pub mod chat_history;
pub mod llm_requests;
pub mod mcp_servers;
pub mod scheduled_jobs;
pub mod schema;
pub mod session_mcp_grants;
pub mod tables;
