use vstd::prelude::*;

pub mod api;
pub mod approval;
pub mod bytes;
pub mod chat_hub;
pub mod config;
pub mod cron;
pub mod db;
pub mod events;
pub mod json;
pub mod llm;
pub mod mcp;
pub mod media;
pub mod names;
pub mod numerals;
pub mod paths;
pub mod patterns;
pub mod run_context;
pub mod session;
pub mod skald;
pub mod sorting;
pub mod text;
pub mod tools;

verus! {

} // verus!
