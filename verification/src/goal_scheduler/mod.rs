//! Recovery of durable active root goals after a restart.
//!
//! The goal row is durable intent, and the supervisor helper is disposable
//! process state.  One process owns a home at a time, discovers active root
//! goals in bounded pages, and asks the host to materialize each eligible root.
//! Successful activations remain scheduled for periodic reconciliation.  Exact
//! snooze deadlines are stored, so that a restarted process preserves the
//! original wake time.  Goal changes invalidate queued work through the
//! identity of a schedule, and eligibility is checked again once there is
//! capacity for an activation.
pub mod activation;
pub mod laws;
pub mod ownership;
pub mod schedule;
