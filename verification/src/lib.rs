//! Core of a coding-assistant session manager: the conversation-log scanner
//! and git-correlated rewind engine, the stdio JSON-RPC client core, and the
//! registry that owns spawned tool processes.
//!
//! Everything here is deliberately free of I/O: functions take the log lines,
//! checkpoint records, clock readings and subprocess results as plain values
//! and return decisions and new values, so that the whole engine is verified.
//! The thin shell that touches files, pipes and git lives outside this crate.

pub mod acemcp;
pub mod checkpoints;
pub mod decstr;
pub mod enhance;
pub mod errors;
pub mod gemini;
pub mod jsontext;
pub mod jsonval;
pub mod logmodel;
pub mod paths;
pub mod prompts;
pub mod providers;
pub mod registry;
pub mod rewind;
pub mod rpc;
pub mod sessions;
pub mod spawn;
pub mod textops;
