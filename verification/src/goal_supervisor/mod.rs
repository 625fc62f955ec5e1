//! Process-local supervision for active root-thread goals.
//!
//! Durable goal state decides when an idle goal needs another opportunity to
//! make progress.  For root threads that opportunity is a check-in: a
//! short-lived helper with the parent's full history chooses one bounded
//! action, and is then retired.
//!
//! Helper identity, retry state, and continuity hints are in memory.  A
//! restart discards them, and the goal idle lifecycle reconstructs supervision
//! from the durable active goal.
pub mod actions;
pub mod failure;
pub mod guidance;
pub mod history;
pub mod identity;
pub mod laws;
pub mod prompt;
pub mod runtime;
pub mod tools;
