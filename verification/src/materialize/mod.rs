//! # Materialization Strategies
//!
//! The ways SQL models are persisted (views, tables, incremental models,
//! SCD-2 snapshots), the choice of strategy for a model, and the statements
//! each strategy issues.

pub mod snapshot;
pub mod incremental;
pub mod statements;

use vstd::prelude::*;
use crate::text::{to_ascii_lowercase, ascii_lowercase, to_lowercase, str_to_lowercase, str_eq};
use crate::project::{ModelColumn, OnSchemaChange, RetentionConfig};
use std::path::PathBuf;
use crate::titan_core::column_map::ColumnMap;
use crate::titan_core::dialect::{AnyDialect, DataType, get_dialect};

verus! {

#[derive(Debug, Clone, Copy, PartialEq, Eq, Structural)]
pub enum Materialization {
    View,
    Table,
    Incremental,
    Snapshot,
    Ephemeral,
}

/// The materialization a configuration string names, ignoring ASCII case;
/// anything else is a view.
pub open spec fn spec_materialization(s: Seq<char>) -> Materialization {
    let l = ascii_lowercase(s);
    if l == "view"@ {
        Materialization::View
    } else if l == "table"@ {
        Materialization::Table
    } else if l == "incremental"@ {
        Materialization::Incremental
    } else if l == "snapshot"@ {
        Materialization::Snapshot
    } else if l == "ephemeral"@ {
        Materialization::Ephemeral
    } else {
        Materialization::View
    }
}

impl Materialization {
    /// Parses a materialization from model configuration (view by default).
    pub fn from_str(s: &str) -> (m: Self)
        ensures
            m == spec_materialization(s@),
    {
        let l = to_ascii_lowercase(s);
        let l = l.as_str();
        if str_eq(l, "view") {
            Materialization::View
        } else if str_eq(l, "table") {
            Materialization::Table
        } else if str_eq(l, "incremental") {
            Materialization::Incremental
        } else if str_eq(l, "snapshot") {
            Materialization::Snapshot
        } else if str_eq(l, "ephemeral") {
            Materialization::Ephemeral
        } else {
            Materialization::View
        }
    }
}

/// The strategy that persists a model, with what it needs to know.
pub enum MaterializerStrategy {
    View,
    Table,
    Incremental {
        unique_key: Option<String>,
        partition_by: Option<String>,
        on_schema_change: OnSchemaChange,
        base_path: PathBuf,
        dialect: AnyDialect,
        column_map: ColumnMap,
    },
    Snapshot {
        unique_key: Option<String>,
        retention_days: Option<i64>,
        base_path: PathBuf,
    },
    /// Tables and incremental models written through ADBC.
    Adbc,
}

/// The Arrow type of a declared column type, ignoring case.
pub open spec fn declared_type(dt: Seq<char>) -> DataType {
    let l = str_to_lowercase(dt);
    if l == "int64"@ || l == "bigint"@ {
        DataType::Int64
    } else if l == "float64"@ || l == "double"@ {
        DataType::Float64
    } else {
        DataType::Utf8
    }
}

/// The column map of the columns that declare a type: each maps to itself
/// with its declared type, a later column replacing an earlier one.
pub open spec fn declared_map(cols: Seq<ModelColumn>) -> Map<Seq<char>, (Seq<char>, DataType)>
    decreases cols.len(),
{
    if cols.len() == 0 {
        Map::empty()
    } else {
        let m = declared_map(cols.drop_last());
        match cols.last().data_type {
            Some(dt) => m.insert(cols.last().name@, (cols.last().name@, declared_type(dt@))),
            None => m,
        }
    }
}

fn declared_type_of(dt: &str) -> (r: DataType)
    ensures
        r == declared_type(dt@),
{
    let l = to_lowercase(dt);
    let l = l.as_str();
    if str_eq(l, "int64") || str_eq(l, "bigint") {
        DataType::Int64
    } else if str_eq(l, "float64") || str_eq(l, "double") {
        DataType::Float64
    } else {
        DataType::Utf8
    }
}

/// The snapshot history a retention configuration keeps, in days.
pub open spec fn retention_days_of(retention: Option<RetentionConfig>) -> Option<i64> {
    match retention {
        Some(c) => Some(c.snapshots_days),
        None => None,
    }
}

/// Chooses the strategy for a model. ADBC targets write tables and
/// incremental models themselves; otherwise views and ephemeral models are
/// views, incremental models carry their keys, their schema-change policy,
/// the project root, the target's dialect and the map of declared column
/// types, and snapshots carry their key, their retention and the project
/// root.
pub fn get_materializer(
    mat: Materialization,
    unique_key: Option<String>,
    partition_by: Option<String>,
    target_type: &str,
    retention: Option<RetentionConfig>,
    on_schema_change: OnSchemaChange,
    project_root: PathBuf,
    columns: &Vec<ModelColumn>,
) -> (r: MaterializerStrategy)
    ensures
        target_type@ == "adbc"@ && (mat == Materialization::Table || mat == Materialization::Incremental)
            ==> r is Adbc,
        !(target_type@ == "adbc"@ && (mat == Materialization::Table || mat == Materialization::Incremental))
            ==> match mat {
                Materialization::View | Materialization::Ephemeral => r is View,
                Materialization::Table => r is Table,
                Materialization::Incremental => match r {
                    MaterializerStrategy::Incremental { unique_key: u, partition_by: p, on_schema_change: o,
                        base_path: b, dialect: d, column_map: m } =>
                        u == unique_key && p == partition_by && o == on_schema_change && b == project_root
                        && (d is Postgres <==> target_type@ == "postgres"@)
                        && m.wf() && m.view() == declared_map(columns@),
                    _ => false,
                },
                Materialization::Snapshot => match r {
                    MaterializerStrategy::Snapshot { unique_key: u, retention_days: d, base_path: b } =>
                        u == unique_key && d == retention_days_of(retention) && b == project_root,
                    _ => false,
                },
            },
{
    let dialect = get_dialect(target_type);
    if str_eq(target_type, "adbc") && (mat == Materialization::Table || mat == Materialization::Incremental) {
        return MaterializerStrategy::Adbc;
    }
    let mut column_map = ColumnMap::new();
    let mut i: usize = 0;
    while i < columns.len()
        invariant
            i <= columns.len(),
            column_map.wf(),
            column_map.view() == declared_map(columns@.take(i as int)),
        decreases columns.len() - i,
    {
        let col = &columns[i];
        assert(columns@.take(i as int + 1).drop_last() =~= columns@.take(i as int));
        match &col.data_type {
            Some(dt) => {
                let t = declared_type_of(dt.as_str());
                column_map.insert(col.name.clone(), col.name.clone(), t);
            },
            None => {},
        }
        i = i + 1;
    }
    assert(columns@.take(columns.len() as int) =~= columns@);
    match mat {
        Materialization::View => MaterializerStrategy::View,
        Materialization::Table => MaterializerStrategy::Table,
        Materialization::Incremental => MaterializerStrategy::Incremental {
            unique_key,
            partition_by,
            on_schema_change,
            base_path: project_root,
            dialect,
            column_map,
        },
        Materialization::Snapshot => MaterializerStrategy::Snapshot {
            unique_key,
            retention_days: match retention {
                Some(c) => Some(c.snapshots_days),
                None => None,
            },
            base_path: project_root,
        },
        Materialization::Ephemeral => MaterializerStrategy::View,
    }
}

} // verus!
