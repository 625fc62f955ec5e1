//! Coordination of long-running processes and durable goals.
//!
//! The library decides; its host performs.  Clocks, databases, sessions,
//! processes and model calls belong to the host, which hands plain values in
//! and carries out what comes back.  What is decided here is stated in
//! contracts and proved:
//!
//! - which paths lead to the privileged daemon directory ([`daemon_mounts`]);
//! - which ancestors stay resident for a subagent's result ([`retention`]);
//! - which stored goals may change, and how ([`goals`], [`goal_store`],
//!   [`storage`], [`goal_edit`], [`goal_resume`]);
//! - which goals are recovered after a restart, and when
//!   ([`goal_scheduler`], [`recovery`]);
//! - how a goal is supervised while its thread is idle ([`goal_supervisor`],
//!   [`followup`]);
//! - how a running process is waited on ([`await_exec`], [`interaction`]);
//! - which tools a model is offered, and what it is told of them
//!   ([`registration`], [`registry`], [`tool_spec`]).
pub mod await_exec;
pub mod clock;
pub mod daemon_mounts;
pub mod followup;
pub mod goal_edit;
pub mod goal_resume;
pub mod goal_scheduler;
pub mod goal_store;
pub mod goal_supervisor;
pub mod goals;
pub mod ids;
pub mod interaction;
pub mod json;
pub mod recovery;
pub mod registration;
pub mod registry;
pub mod retention;
pub mod sources;
pub mod storage;
pub mod text;
pub mod tool_spec;
