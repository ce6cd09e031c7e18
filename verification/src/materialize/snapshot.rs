//! # SCD-2 Snapshot Materialization
//!
//! Snapshots track historical changes by keeping a `titan_valid_from` /
//! `titan_valid_to` window for each row, keyed by a unique identifier and the
//! logic hash. This module builds the statements of a snapshot run; the
//! Delta Lake reads and writes are done by the executor.

use vstd::prelude::*;
use crate::error::TitanError;
use crate::text::{views, join, join_strings, str_eq, index_of_str, i64_to_string, decimal_i64, to_owned_string};
use crate::titan_core::dialect::{DataType, Field, FieldView, field_names, field_views, field_name_list, default_map_type};

verus! {

/// SQL type used for a NULL placeholder of a column added to the snapshot.
pub open spec fn null_cast_type(d: DataType) -> Seq<char> {
    match d {
        DataType::Utf8 => "VARCHAR"@,
        DataType::Int64 => "BIGINT"@,
        DataType::Float64 => "DOUBLE"@,
        DataType::Boolean => "BOOLEAN"@,
        _ => "VARCHAR"@,
    }
}

/// `CAST(NULL AS <type>) as "<name>"`.
pub open spec fn null_column(f: FieldView) -> Seq<char> {
    "CAST(NULL AS "@ + null_cast_type(f.data_type) + ") as \""@ + f.name + "\""@
}

/// `c."<name>"`: a column of the current snapshot kept as is.
pub open spec fn kept_column(name: Seq<char>) -> Seq<char> {
    "c.\""@ + name + "\""@
}

/// A column of an expiring row: `titan_valid_to` is closed at `now`.
pub open spec fn expiring_column(name: Seq<char>, now: i64) -> Seq<char> {
    if name == "titan_valid_to"@ {
        "CAST("@ + decimal_i64(now) + " AS BIGINT) as \"titan_valid_to\""@
    } else {
        kept_column(name)
    }
}

/// `s."<name>" as "<name>"`: a column taken from the source.
pub open spec fn source_column(name: Seq<char>) -> Seq<char> {
    "s.\""@ + name + "\" as \""@ + name + "\""@
}

/// A column of a newly inserted row: the logic hash, an open window from
/// `now`, and the source's value otherwise.
pub open spec fn inserted_column(name: Seq<char>, hash: Seq<char>, now: i64) -> Seq<char> {
    if name == "titan_logic_hash"@ {
        "CAST('"@ + hash + "' AS VARCHAR) as \"titan_logic_hash\""@
    } else if name == "titan_valid_from"@ {
        "CAST("@ + decimal_i64(now) + " AS BIGINT) as \"titan_valid_from\""@
    } else if name == "titan_valid_to"@ {
        "CAST(NULL AS BIGINT) as \"titan_valid_to\""@
    } else {
        source_column(name)
    }
}

/// The source fields that the current snapshot lacks (by exact name).
pub open spec fn spec_new_fields(source: Seq<FieldView>, current: Seq<FieldView>) -> Seq<FieldView>
    decreases source.len(),
{
    if source.len() == 0 {
        Seq::empty()
    } else {
        let prev = spec_new_fields(source.drop_last(), current);
        if field_names(current).contains(source.last().name) {
            prev
        } else {
            prev.push(source.last())
        }
    }
}

/// The three-part SCD-2 merge: rows already closed or still current for
/// `hash` are kept, current rows of another logic version are closed at
/// `now`, and source rows with no current row for `hash` are inserted.
pub open spec fn snapshot_merge_template(all: Seq<char>, snapshot: Seq<char>, hash: Seq<char>, expiring: Seq<char>,
    source: Seq<char>, new_rows: Seq<char>, pk: Seq<char>) -> Seq<char> {
        "\n                -- 1. Unchanged or already expired rows: Keep as is\n                SELECT "@
        + all
        + " FROM \""@
        + snapshot
        + "\" c\n                WHERE c.titan_valid_to IS NOT NULL \n                OR (c.titan_valid_to IS NULL AND c.titan_logic_hash = '"@
        + hash
        + "')\n                UNION ALL\n                -- 2. Active records that need expiring (hash changed or row deleted)\n                SELECT "@
        + expiring
        + " FROM \""@
        + snapshot
        + "\" c\n                WHERE c.titan_valid_to IS NULL AND c.titan_logic_hash != '"@
        + hash
        + "'\n                UNION ALL\n                -- 3. New records from source that don't match any active row hash\n                SELECT "@
        + new_rows
        + " FROM \""@
        + source
        + "\" s\n                WHERE NOT EXISTS (\n                    SELECT 1 FROM \""@
        + snapshot
        + "\" c \n                    WHERE s.\""@
        + pk
        + "\" = c.\""@
        + pk
        + "\" AND c.titan_valid_to IS NULL AND c.titan_logic_hash = '"@
        + hash
        + "'\n                )\n                "@
}

/// The column lists of the merge statement.
pub open spec fn all_list(current: Seq<FieldView>, added: Seq<FieldView>) -> Seq<Seq<char>> {
    field_names(current).map_values(|n: Seq<char>| kept_column(n)) + added.map_values(|f: FieldView| null_column(f))
}

pub open spec fn expiring_list(current: Seq<FieldView>, added: Seq<FieldView>, now: i64) -> Seq<Seq<char>> {
    field_names(current).map_values(|n: Seq<char>| expiring_column(n, now)) + added.map_values(|f: FieldView| null_column(f))
}

pub open spec fn inserted_list(current: Seq<FieldView>, added: Seq<FieldView>, hash: Seq<char>, now: i64) -> Seq<Seq<char>> {
    field_names(current).map_values(|n: Seq<char>| inserted_column(n, hash, now))
        + field_names(added).map_values(|n: Seq<char>| source_column(n))
}

pub open spec fn spec_snapshot_merge_sql(current: Seq<FieldView>, added: Seq<FieldView>, source_view: Seq<char>,
    snapshot_table: Seq<char>, unique_key: Seq<char>, hash: Seq<char>, now: i64) -> Seq<char> {
    snapshot_merge_template(
        join(all_list(current, added), ", "@),
        snapshot_table,
        hash,
        join(expiring_list(current, added, now), ", "@),
        source_view,
        join(inserted_list(current, added, hash, now), ", "@),
        unique_key,
    )
}

/// The statement that creates the first snapshot from the source view.
pub open spec fn spec_snapshot_init_sql(source: Seq<FieldView>, hash: Seq<char>, now: i64, source_view: Seq<char>) -> Seq<char> {
    "SELECT "@ + join(field_names(source).map_values(|n: Seq<char>| "\""@ + n + "\""@), ", "@) + ", '"@ + hash
        + "' as titan_logic_hash, "@ + decimal_i64(now)
        + " as titan_valid_from, CAST(NULL AS BIGINT) as titan_valid_to FROM \""@ + source_view + "\""@
}

fn push_names_mapped_kept(out: &mut Vec<String>, fields: &Vec<Field>)
    ensures
        views(final(out)@) == views(old(out)@) + field_names(field_views(fields@)).map_values(|n: Seq<char>| kept_column(n)),
{
    let ghost start = views(out@);
    let mut i: usize = 0;
    while i < fields.len()
        invariant
            i <= fields.len(),
            views(out@) == start + field_names(field_views(fields@)).take(i as int).map_values(|n: Seq<char>| kept_column(n)),
        decreases fields.len() - i,
    {
        let mut item = to_owned_string("c.\"");
        item.append(fields[i].name.as_str());
        item.append("\"");
        let ghost before = views(out@);
        out.push(item);
        assert(views(out@) =~= before.push(kept_column(fields@[i as int].name@)));
        assert(field_names(field_views(fields@)).take(i as int + 1) =~= field_names(field_views(fields@)).take(i as int).push(fields@[i as int].name@));
        assert(views(out@) =~= start + field_names(field_views(fields@)).take(i as int + 1).map_values(|n: Seq<char>| kept_column(n)));
        i = i + 1;
    }
    assert(field_names(field_views(fields@)).take(fields.len() as int) =~= field_names(field_views(fields@)));
}

fn push_null_columns(out: &mut Vec<String>, fields: &Vec<Field>)
    ensures
        views(final(out)@) == views(old(out)@) + field_views(fields@).map_values(|f: FieldView| null_column(f)),
{
    let ghost start = views(out@);
    let mut i: usize = 0;
    while i < fields.len()
        invariant
            i <= fields.len(),
            views(out@) == start + field_views(fields@).take(i as int).map_values(|f: FieldView| null_column(f)),
        decreases fields.len() - i,
    {
        let f = &fields[i];
        let ty = match f.data_type {
            DataType::Utf8 => "VARCHAR",
            DataType::Int64 => "BIGINT",
            DataType::Float64 => "DOUBLE",
            DataType::Boolean => "BOOLEAN",
            _ => "VARCHAR",
        };
        assert(ty@ == null_cast_type(f.data_type));
        let mut item = to_owned_string("CAST(NULL AS ");
        item.append(ty);
        item.append(") as \"");
        item.append(f.name.as_str());
        item.append("\"");
        let ghost before = views(out@);
        out.push(item);
        assert(views(out@) =~= before.push(null_column(f@)));
        assert(field_views(fields@).take(i as int + 1) =~= field_views(fields@).take(i as int).push(f@));
        assert(views(out@) =~= start + field_views(fields@).take(i as int + 1).map_values(|f: FieldView| null_column(f)));
        i = i + 1;
    }
    assert(field_views(fields@).take(fields.len() as int) =~= field_views(fields@));
}

fn push_expiring_columns(out: &mut Vec<String>, fields: &Vec<Field>, now_text: &String, now: i64)
    requires
        now_text@ == decimal_i64(now),
    ensures
        views(final(out)@) == views(old(out)@) + field_names(field_views(fields@)).map_values(|n: Seq<char>| expiring_column(n, now)),
{
    let ghost start = views(out@);
    let mut i: usize = 0;
    while i < fields.len()
        invariant
            i <= fields.len(),
            now_text@ == decimal_i64(now),
            views(out@) == start + field_names(field_views(fields@)).take(i as int).map_values(|n: Seq<char>| expiring_column(n, now)),
        decreases fields.len() - i,
    {
        let name = fields[i].name.as_str();
        let item = if str_eq(name, "titan_valid_to") {
            let mut it = to_owned_string("CAST(");
            it.append(now_text.as_str());
            it.append(" AS BIGINT) as \"titan_valid_to\"");
            it
        } else {
            let mut it = to_owned_string("c.\"");
            it.append(name);
            it.append("\"");
            it
        };
        let ghost before = views(out@);
        out.push(item);
        assert(views(out@) =~= before.push(expiring_column(name@, now)));
        assert(field_names(field_views(fields@)).take(i as int + 1) =~= field_names(field_views(fields@)).take(i as int).push(name@));
        assert(views(out@) =~= start + field_names(field_views(fields@)).take(i as int + 1).map_values(|n: Seq<char>| expiring_column(n, now)));
        i = i + 1;
    }
    assert(field_names(field_views(fields@)).take(fields.len() as int) =~= field_names(field_views(fields@)));
}

fn push_inserted_columns(out: &mut Vec<String>, fields: &Vec<Field>, hash: &str, now_text: &String, now: i64)
    requires
        now_text@ == decimal_i64(now),
    ensures
        views(final(out)@) == views(old(out)@) + field_names(field_views(fields@)).map_values(|n: Seq<char>| inserted_column(n, hash@, now)),
{
    let ghost start = views(out@);
    let mut i: usize = 0;
    while i < fields.len()
        invariant
            i <= fields.len(),
            now_text@ == decimal_i64(now),
            views(out@) == start + field_names(field_views(fields@)).take(i as int).map_values(|n: Seq<char>| inserted_column(n, hash@, now)),
        decreases fields.len() - i,
    {
        let name = fields[i].name.as_str();
        let item = if str_eq(name, "titan_logic_hash") {
            let mut it = to_owned_string("CAST('");
            it.append(hash);
            it.append("' AS VARCHAR) as \"titan_logic_hash\"");
            it
        } else if str_eq(name, "titan_valid_from") {
            let mut it = to_owned_string("CAST(");
            it.append(now_text.as_str());
            it.append(" AS BIGINT) as \"titan_valid_from\"");
            it
        } else if str_eq(name, "titan_valid_to") {
            to_owned_string("CAST(NULL AS BIGINT) as \"titan_valid_to\"")
        } else {
            source_column_text(name)
        };
        let ghost before = views(out@);
        out.push(item);
        assert(views(out@) =~= before.push(inserted_column(name@, hash@, now)));
        assert(field_names(field_views(fields@)).take(i as int + 1) =~= field_names(field_views(fields@)).take(i as int).push(name@));
        assert(views(out@) =~= start + field_names(field_views(fields@)).take(i as int + 1).map_values(|n: Seq<char>| inserted_column(n, hash@, now)));
        i = i + 1;
    }
    assert(field_names(field_views(fields@)).take(fields.len() as int) =~= field_names(field_views(fields@)));
}

fn source_column_text(name: &str) -> (r: String)
    ensures
        r@ == source_column(name@),
{
    let mut it = to_owned_string("s.\"");
    it.append(name);
    it.append("\" as \"");
    it.append(name);
    it.append("\"");
    it
}

fn push_source_columns(out: &mut Vec<String>, fields: &Vec<Field>)
    ensures
        views(final(out)@) == views(old(out)@) + field_names(field_views(fields@)).map_values(|n: Seq<char>| source_column(n)),
{
    let ghost start = views(out@);
    let mut i: usize = 0;
    while i < fields.len()
        invariant
            i <= fields.len(),
            views(out@) == start + field_names(field_views(fields@)).take(i as int).map_values(|n: Seq<char>| source_column(n)),
        decreases fields.len() - i,
    {
        let item = source_column_text(fields[i].name.as_str());
        let ghost before = views(out@);
        out.push(item);
        assert(views(out@) =~= before.push(source_column(fields@[i as int].name@)));
        assert(field_names(field_views(fields@)).take(i as int + 1) =~= field_names(field_views(fields@)).take(i as int).push(fields@[i as int].name@));
        assert(views(out@) =~= start + field_names(field_views(fields@)).take(i as int + 1).map_values(|n: Seq<char>| source_column(n)));
        i = i + 1;
    }
    assert(field_names(field_views(fields@)).take(fields.len() as int) =~= field_names(field_views(fields@)));
}

/// The source fields that the current snapshot lacks, in source order.
pub fn new_source_fields(source: &Vec<Field>, current: &Vec<Field>) -> (r: Vec<Field>)
    ensures
        field_views(r@) == spec_new_fields(field_views(source@), field_views(current@)),
{
    let names = field_name_list(current);
    let mut r: Vec<Field> = Vec::new();
    let mut i: usize = 0;
    while i < source.len()
        invariant
            i <= source.len(),
            views(names@) == field_names(field_views(current@)),
            field_views(r@) == spec_new_fields(field_views(source@).take(i as int), field_views(current@)),
        decreases source.len() - i,
    {
        let ghost st = field_views(source@).take(i as int + 1);
        assert(st.drop_last() =~= field_views(source@).take(i as int));
        assert(st.last() == source@[i as int]@);
        if index_of_str(&names, source[i].name.as_str()).is_none() {
            let f = source[i].clone();
            let ghost before = field_views(r@);
            r.push(f);
            assert(field_views(r@) =~= before.push(source@[i as int]@));
        }
        i = i + 1;
    }
    assert(field_views(source@).take(source.len() as int) =~= field_views(source@));
    r
}

/// The SCD-2 merge statement of a snapshot run over the current snapshot
/// columns `current` and the source columns `added` that it lacks.
pub fn snapshot_merge_sql(current: &Vec<Field>, added: &Vec<Field>, source_view: &str, snapshot_table: &str,
    unique_key: &str, hash: &str, now: i64) -> (r: String)
    ensures
        r@ == spec_snapshot_merge_sql(field_views(current@), field_views(added@), source_view@, snapshot_table@,
            unique_key@, hash@, now),
{
    let now_text = i64_to_string(now);
    let mut all_cols: Vec<String> = Vec::new();
    push_names_mapped_kept(&mut all_cols, current);
    push_null_columns(&mut all_cols, added);
    let mut exp_cols: Vec<String> = Vec::new();
    push_expiring_columns(&mut exp_cols, current, &now_text, now);
    push_null_columns(&mut exp_cols, added);
    let mut new_cols: Vec<String> = Vec::new();
    push_inserted_columns(&mut new_cols, current, hash, &now_text, now);
    push_source_columns(&mut new_cols, added);
    let all_s = join_strings(&all_cols, ", ");
    let exp_s = join_strings(&exp_cols, ", ");
    let new_s = join_strings(&new_cols, ", ");
    let all = all_s.as_str();
    let expiring = exp_s.as_str();
    let new_rows = new_s.as_str();
    let snapshot = snapshot_table;
    let source = source_view;
    let pk = unique_key;
    let mut r = String::new();
    r.append("\n                -- 1. Unchanged or already expired rows: Keep as is\n                SELECT ");
    r.append(all);
    r.append(" FROM \"");
    r.append(snapshot);
    r.append("\" c\n                WHERE c.titan_valid_to IS NOT NULL \n                OR (c.titan_valid_to IS NULL AND c.titan_logic_hash = '");
    r.append(hash);
    r.append("')\n                UNION ALL\n                -- 2. Active records that need expiring (hash changed or row deleted)\n                SELECT ");
    r.append(expiring);
    r.append(" FROM \"");
    r.append(snapshot);
    r.append("\" c\n                WHERE c.titan_valid_to IS NULL AND c.titan_logic_hash != '");
    r.append(hash);
    r.append("'\n                UNION ALL\n                -- 3. New records from source that don't match any active row hash\n                SELECT ");
    r.append(new_rows);
    r.append(" FROM \"");
    r.append(source);
    r.append("\" s\n                WHERE NOT EXISTS (\n                    SELECT 1 FROM \"");
    r.append(snapshot);
    r.append("\" c \n                    WHERE s.\"");
    r.append(pk);
    r.append("\" = c.\"");
    r.append(pk);
    r.append("\" AND c.titan_valid_to IS NULL AND c.titan_logic_hash = '");
    r.append(hash);
    r.append("'\n                )\n                ");
    r
}

/// The statement that creates the first snapshot: every source column, the
/// logic hash, and a window open from `now`.
pub fn snapshot_init_sql(source: &Vec<Field>, hash: &str, now: i64, source_view: &str) -> (r: String)
    ensures
        r@ == spec_snapshot_init_sql(field_views(source@), hash@, now, source_view@),
{
    let mut cols: Vec<String> = Vec::new();
    let mut i: usize = 0;
    while i < source.len()
        invariant
            i <= source.len(),
            views(cols@) == field_names(field_views(source@)).take(i as int).map_values(|n: Seq<char>| "\""@ + n + "\""@),
        decreases source.len() - i,
    {
        let mut item = to_owned_string("\"");
        item.append(source[i].name.as_str());
        item.append("\"");
        let ghost before = views(cols@);
        cols.push(item);
        assert(field_names(field_views(source@)).take(i as int + 1) =~= field_names(field_views(source@)).take(i as int).push(source@[i as int].name@));
        assert(views(cols@) =~= field_names(field_views(source@)).take(i as int + 1).map_values(|n: Seq<char>| "\""@ + n + "\""@)) by {
            assert(views(cols@) =~= before.push("\""@ + source@[i as int].name@ + "\""@));
        }
        i = i + 1;
    }
    assert(field_names(field_views(source@)).take(source.len() as int) =~= field_names(field_views(source@)));
    let cols_str = join_strings(&cols, ", ");
    let now_text = i64_to_string(now);
    let mut r = to_owned_string("SELECT ");
    r.append(cols_str.as_str());
    r.append(", '");
    r.append(hash);
    r.append("' as titan_logic_hash, ");
    r.append(now_text.as_str());
    r.append(" as titan_valid_from, CAST(NULL AS BIGINT) as titan_valid_to FROM \"");
    r.append(source_view);
    r.append("\"");
    r
}

/// The unique key a snapshot needs; its absence is a validation error.
pub fn required_unique_key(unique_key: &Option<String>) -> (r: Result<String, TitanError>)
    ensures
        match unique_key {
            Some(k) => r matches Ok(s) && s@ == k@,
            None => r matches Err(TitanError::ValidationError(m)) && m@ == "unique_key is required for snapshots"@,
        },
{
    match unique_key {
        Some(k) => Ok(k.clone()),
        None => Err(TitanError::ValidationError(to_owned_string("unique_key is required for snapshots"))),
    }
}

/// `snapshots/<env>/<target>`: where a snapshot table lives under the project root.
pub fn snapshot_table_dir(env: &str, target_name: &str) -> (r: String)
    ensures
        r@ == "snapshots/"@ + env@ + "/"@ + target_name@,
{
    let mut r = to_owned_string("snapshots/");
    r.append(env);
    r.append("/");
    r.append(target_name);
    r
}

/// `<prefix>_<name>_<hash>_<exec_id>`: the run-scoped name of a registered table.
pub fn run_scoped_table_name(prefix: &str, name: &str, hash: &str, exec_id: &str) -> (r: String)
    ensures
        r@ == prefix@ + "_"@ + name@ + "_"@ + hash@ + "_"@ + exec_id@,
{
    let mut r = to_owned_string(prefix);
    r.append("_");
    r.append(name);
    r.append("_");
    r.append(hash);
    r.append("_");
    r.append(exec_id);
    r
}

/// The largest number of days a retention period can span: a period is a
/// `chrono::TimeDelta`, which holds at most `i64::MAX` milliseconds, and
/// `TimeDelta::try_days` refuses any day count whose seconds pass that
/// bound (in either direction).
pub const MAX_RETENTION_DAYS: i64 = 106_751_991_167;

/// The retention period of a snapshot, in days: none when none is
/// configured, and an error for a day count that no retention period can
/// span.
pub fn snapshot_retention(retention_days: Option<i64>) -> (r: Result<Option<i64>, TitanError>)
    ensures
        match retention_days {
            None => r == Ok::<Option<i64>, TitanError>(None),
            Some(d) => if -MAX_RETENTION_DAYS <= d <= MAX_RETENTION_DAYS {
                r == Ok::<Option<i64>, TitanError>(Some(d))
            } else {
                r matches Err(TitanError::ValidationError(m)) && m@ == "Invalid retention days"@
            },
        },
{
    match retention_days {
        None => Ok(None),
        Some(d) => {
            if -MAX_RETENTION_DAYS <= d && d <= MAX_RETENTION_DAYS {
                Ok(Some(d))
            } else {
                Err(TitanError::ValidationError(to_owned_string("Invalid retention days")))
            }
        },
    }
}

/// In the kept and the expiring parts of a snapshot merge, a column added
/// to the snapshot is a NULL cast to the SQL type that the default dialect
/// gives its Arrow type (text, 64-bit integers, 64-bit floats and booleans:
/// the types a snapshot column takes), so that each part's column has the
/// type the inserted part gives it.
pub proof fn lemma_added_column_placeholders(current: Seq<FieldView>, added: Seq<FieldView>, now: i64, j: int)
    requires
        0 <= j < added.len(),
        added[j].data_type is Utf8 || added[j].data_type is Int64 || added[j].data_type is Float64
            || added[j].data_type is Boolean,
    ensures
        all_list(current, added)[current.len() + j]
            == "CAST(NULL AS "@ + default_map_type(added[j].data_type) + ") as \""@ + added[j].name + "\""@,
        expiring_list(current, added, now)[current.len() + j]
            == "CAST(NULL AS "@ + default_map_type(added[j].data_type) + ") as \""@ + added[j].name + "\""@,
{
    assert(field_names(current).len() == current.len());
    assert(all_list(current, added)[current.len() + j] == null_column(added[j]));
    assert(expiring_list(current, added, now)[current.len() + j] == null_column(added[j]));
}

} // verus!
