//! Language models: which are configured, how they are doing, and which one
//! an agent gets.
pub mod catalog;
pub mod index;
pub mod manager;
pub mod providers;
