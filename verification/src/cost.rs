//! Cost attribution: the warehouses that price work and how sure an
//! estimate is.

use vstd::prelude::*;
use crate::text::{to_lowercase, str_to_lowercase, str_eq};

verus! {

#[derive(Debug, Clone, Copy, PartialEq, Eq, Structural)]
pub enum Confidence {
    Low,
    Medium,
    High,
}

#[derive(Debug, Clone, Copy, PartialEq, Eq, Structural)]
pub enum WarehouseType {
    Databricks,
    Snowflake,
    BigQuery,
    DuckDb,
}

/// The warehouse a name selects, ignoring case; DuckDB by default.
pub open spec fn spec_warehouse(name: Seq<char>) -> WarehouseType {
    let l = str_to_lowercase(name);
    if l == "databricks"@ {
        WarehouseType::Databricks
    } else if l == "snowflake"@ {
        WarehouseType::Snowflake
    } else if l == "bigquery"@ {
        WarehouseType::BigQuery
    } else {
        WarehouseType::DuckDb
    }
}

impl WarehouseType {
    pub fn from_name(name: &str) -> (w: Self)
        ensures
            w == spec_warehouse(name@),
    {
        let l = to_lowercase(name);
        let l = l.as_str();
        if str_eq(l, "databricks") {
            WarehouseType::Databricks
        } else if str_eq(l, "snowflake") {
            WarehouseType::Snowflake
        } else if str_eq(l, "bigquery") {
            WarehouseType::BigQuery
        } else {
            WarehouseType::DuckDb
        }
    }
}

} // verus!
