//! Runs a primary command while declared background helpers run beside it,
//! then interrupts and kills the helpers and saves every captured stream.
//!
//! The library holds the decisions of a run: which process to start, signal,
//! kill or reap next, which streams are saved and under which file names.
//! A driver performs each [`orchestrator::Action`] and reports the outcome
//! back as an [`orchestrator::Event`].
pub mod output;
pub mod task;
pub mod orchestrator;
