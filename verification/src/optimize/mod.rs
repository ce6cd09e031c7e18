//! # Storage Optimization
//!
//! Analyses that find redundant data across tables.

pub mod dedup;
