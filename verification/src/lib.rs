//! # Titan Engine
//!
//! Titan is a vectorized SQL materialization engine. This crate holds its
//! deterministic core: SQL text generation for warehouse dialects, lineage
//! analysis and diffing, schema drift detection, logic fingerprinting, the DAG
//! scheduling rules and the reliability state machines. Its functions are
//! verified by Verus against their contracts; the few calls into `std`,
//! `blake3`, `lasso`, `sqlparser` and `minijinja` go through small wrappers
//! whose contracts are trusted, each documented where it stands.

pub mod text;
pub mod error;
pub mod seqs;
pub mod order;
pub mod titan_core;
pub mod filler;
pub mod materialize;
pub mod fingerprint;
pub mod optimize;
pub mod circuit_breaker;
pub mod project;
pub mod bridge;
pub mod connectors;
pub mod api;
pub mod db;
pub mod packages;
pub mod cost;
pub mod orchestrator;
pub mod artifacts;
pub mod hooks;
pub mod macros;
pub mod pipeline;
pub mod intern;
pub mod mapper;

pub use crate::titan_core::TitanSQL;
pub use crate::error::{Result, TitanError};
