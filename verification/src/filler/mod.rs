//! # Filler Orchestration
//!
//! The DAG execution rules and the bookkeeping around materializations.

pub mod dag;
pub mod grace_period;
pub mod task;

pub use dag::{DagScheduler, TaskNode, TaskStatus, DagDecision};
