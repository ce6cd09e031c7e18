//! # Incremental Materialization
//!
//! Incremental models in Delta Lake merge new data on a unique key (or
//! overwrite partitions), and append when no key is given. This module
//! decides the statement and write mode of an incremental run; the Delta Lake
//! reads and writes are done by the executor.

use vstd::prelude::*;
use crate::text::{views, split_on, split_char, str_trim, trim_all, to_owned_string};
use crate::titan_core::dialect::{SqlDialect, Field, FieldView, field_names, field_views, field_name_list};
use crate::materialize::snapshot::{spec_new_fields, new_source_fields};

verus! {

/// The keys of a comma-separated unique key, each trimmed.
pub open spec fn spec_unique_keys(pk: Seq<char>) -> Seq<Seq<char>> {
    split_on(pk, ',').map_values(|x: Seq<char>| str_trim(x))
}

/// Splits a comma-separated unique key into trimmed key names.
pub fn split_unique_keys(pk: &str) -> (r: Vec<String>)
    ensures
        views(r@) == spec_unique_keys(pk@),
{
    let parts = split_char(pk, ',');
    trim_all(&parts)
}

/// The columns of the table after a merge: the target's columns, then the
/// source columns that the target lacks.
pub open spec fn spec_resulting_columns(target: Seq<FieldView>, source: Seq<FieldView>) -> Seq<Seq<char>> {
    field_names(target) + field_names(spec_new_fields(source, target))
}

/// The resulting column names, and whether the source brings new columns
/// (in which case the write merges the schema).
pub fn resulting_columns(target: &Vec<Field>, source: &Vec<Field>) -> (r: (Vec<String>, bool))
    ensures
        views(r.0@) == spec_resulting_columns(field_views(target@), field_views(source@)),
        r.1 == (spec_new_fields(field_views(source@), field_views(target@)).len() > 0),
{
    let added = new_source_fields(source, target);
    let mut names = field_name_list(target);
    let added_names = field_name_list(&added);
    let ghost before = views(names@);
    let mut extra = added_names;
    names.append(&mut extra);
    assert(views(names@) =~= before + field_names(field_views(added@)));
    (names, added.len() > 0)
}

/// The statement that merges the source view into the target table: an
/// overwrite of the partitions present in the source when the model is
/// partitioned, an upsert on the unique keys otherwise. Both table names are
/// quoted by the dialect.
pub open spec fn spec_incremental_merge_sql<D: SqlDialect>(d: D, target_table: Seq<char>, source_view: Seq<char>,
    unique_key: Seq<char>, partition_by: Option<Seq<char>>, columns: Seq<Seq<char>>) -> Seq<char> {
    match partition_by {
        Some(p) => d.spec_partition_overwrite(d.spec_quote_identifier(target_table),
            d.spec_quote_identifier(source_view), p, columns),
        None => d.spec_merge_upsert(d.spec_quote_identifier(target_table), d.spec_quote_identifier(source_view),
            spec_unique_keys(unique_key), columns),
    }
}

pub open spec fn opt_view(o: Option<String>) -> Option<Seq<char>> {
    match o {
        Some(s) => Some(s@),
        None => None,
    }
}

pub fn incremental_merge_sql<D: SqlDialect>(dialect: &D, target_table: &str, source_view: &str, unique_key: &str,
    partition_by: &Option<String>, columns: &Vec<String>) -> (r: String)
    ensures
        r@ == spec_incremental_merge_sql(*dialect, target_table@, source_view@, unique_key@, opt_view(*partition_by),
            views(columns@)),
{
    let target_q = dialect.quote_identifier(target_table);
    let source_q = dialect.quote_identifier(source_view);
    match partition_by {
        Some(p) => dialect.partition_overwrite(target_q.as_str(), source_q.as_str(), p.as_str(), columns),
        None => {
            let keys = split_unique_keys(unique_key);
            dialect.merge_upsert(target_q.as_str(), source_q.as_str(), &keys, columns)
        },
    }
}

/// How an incremental run writes to its Delta table.
#[derive(Clone, Copy, Debug, PartialEq, Eq, Structural)]
pub enum WriteMode {
    /// First run: create the table, failing if it exists.
    ErrorIfExists,
    /// Keyed run: replace the table with the merge result.
    Overwrite,
    /// Unkeyed run: append the new rows.
    Append,
}

/// The write mode of an incremental run.
pub fn incremental_write_mode(table_exists: bool, has_unique_key: bool) -> (m: WriteMode)
    ensures
        m == (if !table_exists { WriteMode::ErrorIfExists } else if has_unique_key { WriteMode::Overwrite }
            else { WriteMode::Append }),
{
    if !table_exists {
        WriteMode::ErrorIfExists
    } else if has_unique_key {
        WriteMode::Overwrite
    } else {
        WriteMode::Append
    }
}

/// `tables/<env>/<target>`: where an incremental table lives under the project root.
pub fn incremental_table_dir(env: &str, target_name: &str) -> (r: String)
    ensures
        r@ == "tables/"@ + env@ + "/"@ + target_name@,
{
    let mut r = to_owned_string("tables/");
    r.append(env);
    r.append("/");
    r.append(target_name);
    r
}

} // verus!
