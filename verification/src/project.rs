//! Model configuration read from a project.

use vstd::prelude::*;
use crate::titan_core::masking::MaskStrategy;

verus! {

/// A column declared in a model's configuration.
#[derive(Debug)]
pub struct ModelColumn {
    pub name: String,
    /// The declared type, when the model states one.
    pub data_type: Option<String>,
    /// The masking policy, when the column holds personal data.
    pub masking: Option<MaskStrategy>,
}

/// Where a source's data lives and how to reach it.
#[derive(Debug)]
pub struct SourceConfig {
    pub source_type: String,
    pub bucket: Option<String>,
    pub region: Option<String>,
    pub endpoint: Option<String>,
    pub driver: Option<String>,
    pub connection_string: Option<String>,
}

/// Something outside the project that reads its models (a dashboard, an
/// application), and who owns it.
#[derive(Debug)]
pub struct Exposure {
    pub name: String,
    pub exposure_type: String,
    pub owner: String,
    pub depends_on: Vec<String>,
}

/// How an incremental model reacts when its columns change.
#[derive(Debug, Clone, Copy, PartialEq, Eq, Structural)]
pub enum OnSchemaChange {
    Ignore,
    AppendNewColumns,
    SyncAllColumns,
    Fail,
}

/// How long old versions of a model's data are kept.
#[derive(Debug, Clone, Copy, PartialEq, Eq, Structural)]
pub struct RetentionConfig {
    /// Days of snapshot history kept.
    pub snapshots_days: i64,
}

} // verus!
