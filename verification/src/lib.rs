//! Execution pipeline of a code playground: command templating, workspace
//! naming, outcome classification and the per-request state machine.

pub mod api;
pub mod config;
pub mod executor;
pub mod outcome;
pub mod template;
pub mod trace;
pub mod workspace;
