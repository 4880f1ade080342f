//! Approval: rules that decide whether a tool call runs, waits for a
//! human or is refused, the registry of calls that wait, and the bypasses a
//! human has granted to a session.
pub mod manager;
pub mod order;
pub mod rules;
pub mod seeds;
