//! # Warehouse SQL Dialects
//!
//! Warehouse-specific SQL generation, so that the engine can emit compatible
//! DDL and DML for each destination without hard-coding syntax.

use vstd::prelude::*;
use crate::text::{views, join, join_strings, push_char, str_eq, to_uppercase, str_to_uppercase,
    index_of_str, to_owned_string};

verus! {

/// The column types that SQL generation distinguishes (the engine's view of
/// an Arrow data type).
#[derive(Clone, Copy, Debug, PartialEq, Eq, Structural)]
pub enum DataType {
    Utf8,
    LargeUtf8,
    Int32,
    Int64,
    UInt64,
    Float32,
    Float64,
    Boolean,
    Timestamp,
    /// Any other Arrow type.
    Other,
}

/// A column of a schema: its name, type and nullability.
#[derive(Debug)]
pub struct Field {
    pub name: String,
    pub data_type: DataType,
    pub nullable: bool,
}

impl Clone for Field {
    fn clone(&self) -> (r: Self)
        ensures
            r@ == self@,
    {
        Field { name: self.name.clone(), data_type: self.data_type, nullable: self.nullable }
    }
}

/// The mathematical value of a field.
pub struct FieldView {
    pub name: Seq<char>,
    pub data_type: DataType,
    pub nullable: bool,
}

impl View for Field {
    type V = FieldView;

    open spec fn view(&self) -> FieldView {
        FieldView { name: self.name@, data_type: self.data_type, nullable: self.nullable }
    }
}

pub open spec fn field_views(fs: Seq<Field>) -> Seq<FieldView> {
    fs.map_values(|f: Field| f@)
}

/// The names of a sequence of fields.
pub open spec fn field_names(fs: Seq<FieldView>) -> Seq<Seq<char>> {
    fs.map_values(|f: FieldView| f.name)
}

/// The names of `fields`, in order.
pub fn field_name_list(fields: &Vec<Field>) -> (r: Vec<String>)
    ensures
        views(r@) == field_names(field_views(fields@)),
{
    let mut r: Vec<String> = Vec::new();
    let mut i: usize = 0;
    while i < fields.len()
        invariant
            i <= fields.len(),
            views(r@) == field_names(field_views(fields@)).take(i as int),
        decreases fields.len() - i,
    {
        let ghost before = r@;
        r.push(fields[i].name.clone());
        assert(views(r@) =~= field_names(field_views(fields@)).take(i as int + 1)) by {
            assert(views(r@) =~= views(before).push(fields@[i as int].name@));
        }
        i = i + 1;
    }
    assert(field_names(field_views(fields@)).take(fields.len() as int) =~= field_names(field_views(fields@)));
    r
}

/// `s` between double quotes, as the dialects quote identifiers.
pub open spec fn dquoted(s: Seq<char>) -> Seq<char> {
    seq!['"'] + s + seq!['"']
}

/// `prefix` followed by the quoted identifier, for each identifier.
pub open spec fn prefixed_quoted(cols: Seq<Seq<char>>, prefix: Seq<char>) -> Seq<Seq<char>> {
    cols.map_values(|c: Seq<char>| prefix + dquoted(c))
}

/// `s.<k> = t.<k>` for each key.
pub open spec fn key_matches(keys: Seq<Seq<char>>) -> Seq<Seq<char>> {
    keys.map_values(|k: Seq<char>| "s."@ + dquoted(k) + " = t."@ + dquoted(k))
}

/// `<c> = EXCLUDED.<c>` for each column.
pub open spec fn excluded_assignments(cols: Seq<Seq<char>>) -> Seq<Seq<char>> {
    cols.map_values(|c: Seq<char>| dquoted(c) + " = EXCLUDED."@ + dquoted(c))
}

/// The columns that are not keys, in order.
pub open spec fn non_key_columns(cols: Seq<Seq<char>>, keys: Seq<Seq<char>>) -> Seq<Seq<char>> {
    cols.filter(|c: Seq<char>| !keys.contains(c))
}

pub open spec fn spec_create_table_as(target: Seq<char>, sql: Seq<char>) -> Seq<char> {
    "CREATE TABLE "@ + target + " AS "@ + sql
}

pub open spec fn spec_add_column_sql(table: Seq<char>, column: Seq<char>, data_type: Seq<char>) -> Seq<char> {
    "ALTER TABLE "@ + table + " ADD COLUMN "@ + column + " "@ + data_type
}

pub open spec fn spec_alter_column_type_sql(table: Seq<char>, column: Seq<char>, new_type: Seq<char>) -> Seq<char> {
    "ALTER TABLE "@ + table + " ALTER COLUMN "@ + column + " TYPE "@ + new_type
}

pub open spec fn spec_cast(expr: Seq<char>, sql_type: Seq<char>) -> Seq<char> {
    "CAST("@ + expr + " AS "@ + sql_type + ")"@
}

/// Abstraction for warehouse-specific SQL generation.
pub trait SqlDialect {
    spec fn spec_quote_identifier(&self, ident: Seq<char>) -> Seq<char>;

    spec fn spec_table_name(&self, env: Seq<char>, name: Seq<char>) -> Seq<char>;

    spec fn spec_merge_upsert(&self, target: Seq<char>, source: Seq<char>, unique_keys: Seq<Seq<char>>,
        columns: Seq<Seq<char>>) -> Seq<char>;

    spec fn spec_partition_overwrite(&self, target: Seq<char>, source: Seq<char>, partition_key: Seq<char>,
        columns: Seq<Seq<char>>) -> Seq<char>;

    spec fn spec_map_type(&self, data_type: DataType) -> Seq<char>;

    spec fn spec_is_safe_widening(&self, source_type: Seq<char>, target_type: Seq<char>) -> bool;

    spec fn spec_describe_table_sql(&self, table: Seq<char>) -> Seq<char>;

    /// Quote an identifier.
    fn quote_identifier(&self, ident: &str) -> (r: String)
        ensures
            r@ == self.spec_quote_identifier(ident@);

    /// Format a table name for an environment.
    fn table_name(&self, env: &str, name: &str) -> (r: String)
        ensures
            r@ == self.spec_table_name(env@, name@);

    /// Generate a CREATE TABLE AS SELECT statement.
    fn create_table_as(&self, target: &str, sql: &str) -> (r: String)
        ensures
            r@ == spec_create_table_as(target@, sql@),
    {
        let mut r = to_owned_string("CREATE TABLE ");
        r.append(target);
        r.append(" AS ");
        r.append(sql);
        r
    }

    /// Generate a MERGE/UPSERT statement for incremental materialization.
    fn merge_upsert(&self, target: &str, source: &str, unique_keys: &Vec<String>, columns: &Vec<String>) -> (r: String)
        ensures
            r@ == self.spec_merge_upsert(target@, source@, views(unique_keys@), views(columns@));

    /// Generate an INSERT OVERWRITE PARTITION statement.
    fn partition_overwrite(&self, target: &str, source: &str, partition_key: &str, columns: &Vec<String>) -> (r: String)
        ensures
            r@ == self.spec_partition_overwrite(target@, source@, partition_key@, views(columns@));

    /// Map a column type to the warehouse's SQL type name.
    fn map_type(&self, data_type: DataType) -> (r: String)
        ensures
            r@ == self.spec_map_type(data_type);

    /// Generate a CAST expression.
    fn cast(&self, expr: &str, to_type: DataType) -> (r: String)
        ensures
            r@ == spec_cast(expr@, self.spec_map_type(to_type)),
    {
        let t = self.map_type(to_type);
        let mut r = to_owned_string("CAST(");
        r.append(expr);
        r.append(" AS ");
        r.append(t.as_str());
        r.append(")");
        r
    }

    /// Whether changing from `source_type` to `target_type` is a safe widening.
    fn is_safe_widening(&self, source_type: &str, target_type: &str) -> (r: bool)
        ensures
            r == self.spec_is_safe_widening(source_type@, target_type@);

    /// Generate SQL to add a column.
    fn add_column_sql(&self, table: &str, column: &str, data_type: &str) -> (r: String)
        ensures
            r@ == spec_add_column_sql(table@, column@, data_type@),
    {
        let mut r = to_owned_string("ALTER TABLE ");
        r.append(table);
        r.append(" ADD COLUMN ");
        r.append(column);
        r.append(" ");
        r.append(data_type);
        r
    }

    /// Generate SQL to change a column type.
    fn alter_column_type_sql(&self, table: &str, column: &str, new_type: &str) -> (r: String)
        ensures
            r@ == spec_alter_column_type_sql(table@, column@, new_type@),
    {
        let mut r = to_owned_string("ALTER TABLE ");
        r.append(table);
        r.append(" ALTER COLUMN ");
        r.append(column);
        r.append(" TYPE ");
        r.append(new_type);
        r
    }

    /// Generate SQL to describe a table's schema.
    fn describe_table_sql(&self, table: &str) -> (r: String)
        ensures
            r@ == self.spec_describe_table_sql(table@);
}

/// `"ident"` (no escaping of inner quotes, as both dialects write it).
pub fn dquote(ident: &str) -> (r: String)
    ensures
        r@ == dquoted(ident@),
{
    let mut r = String::new();
    push_char(&mut r, '"');
    r.append(ident);
    push_char(&mut r, '"');
    assert(r@ =~= dquoted(ident@));
    r
}

/// `prefix` followed by the quoted identifier, for each column.
pub fn prefix_quote_all(cols: &Vec<String>, prefix: &str) -> (r: Vec<String>)
    ensures
        views(r@) == prefixed_quoted(views(cols@), prefix@),
{
    let mut r: Vec<String> = Vec::new();
    let mut i: usize = 0;
    while i < cols.len()
        invariant
            i <= cols.len(),
            views(r@) == prefixed_quoted(views(cols@), prefix@).take(i as int),
        decreases cols.len() - i,
    {
        let q = dquote(cols[i].as_str());
        let mut item = to_owned_string(prefix);
        item.append(q.as_str());
        let ghost before = r@;
        r.push(item);
        assert(views(r@) =~= prefixed_quoted(views(cols@), prefix@).take(i as int + 1)) by {
            assert(views(r@) =~= views(before).push(prefix@ + dquoted(cols@[i as int]@)));
        }
        i = i + 1;
    }
    assert(prefixed_quoted(views(cols@), prefix@).take(cols.len() as int) =~= prefixed_quoted(views(cols@), prefix@));
    r
}

/// Dialect for DataFusion and Delta Lake (Postgres-like quoting).
pub struct DefaultDialect;

/// Dialect for Postgres-specific SQL.
pub struct PostgresDialect;

pub open spec fn default_is_safe_widening(s: Seq<char>, t: Seq<char>) -> bool {
    ||| s == t
    ||| (s == "INT"@ || s == "INTEGER"@) && t == "BIGINT"@
    ||| (s == "FLOAT"@ || s == "REAL"@) && t == "DOUBLE"@
    ||| t == "VARCHAR"@ || t == "STRING"@ || t == "TEXT"@
}

pub open spec fn postgres_is_safe_widening(s: Seq<char>, t: Seq<char>) -> bool {
    ||| s == t
    ||| (s == "INT"@ || s == "INTEGER"@) && t == "BIGINT"@
    ||| s == "REAL"@ && t == "DOUBLE PRECISION"@
    ||| t == "TEXT"@ || t == "VARCHAR"@
}

pub open spec fn default_map_type(d: DataType) -> Seq<char> {
    match d {
        DataType::Utf8 | DataType::LargeUtf8 => "VARCHAR"@,
        DataType::Int32 | DataType::Int64 => "BIGINT"@,
        DataType::Float32 | DataType::Float64 => "DOUBLE"@,
        DataType::Boolean => "BOOLEAN"@,
        DataType::Timestamp => "TIMESTAMP"@,
        _ => "VARCHAR"@,
    }
}

pub open spec fn postgres_map_type(d: DataType) -> Seq<char> {
    match d {
        DataType::Utf8 | DataType::LargeUtf8 => "TEXT"@,
        DataType::Int32 => "INT"@,
        DataType::Int64 => "BIGINT"@,
        DataType::Float32 => "REAL"@,
        DataType::Float64 => "DOUBLE PRECISION"@,
        DataType::Boolean => "BOOLEAN"@,
        _ => "TEXT"@,
    }
}

pub open spec fn default_merge_upsert(target: Seq<char>, source: Seq<char>, keys: Seq<Seq<char>>,
    cols: Seq<Seq<char>>) -> Seq<char> {
    "SELECT "@ + join(prefixed_quoted(cols, "s."@), ", "@) + " FROM "@ + source
        + " s UNION ALL SELECT "@ + join(prefixed_quoted(cols, "t."@), ", "@) + " FROM "@ + target
        + " t WHERE NOT EXISTS (SELECT 1 FROM "@ + source + " s WHERE "@ + join(key_matches(keys), " AND "@) + ")"@
}

pub open spec fn postgres_merge_upsert(target: Seq<char>, source: Seq<char>, keys: Seq<Seq<char>>,
    cols: Seq<Seq<char>>) -> Seq<char> {
    "INSERT INTO "@ + target + " SELECT * FROM "@ + source + " ON CONFLICT ("@
        + join(prefixed_quoted(keys, ""@), ", "@) + ") DO UPDATE SET "@
        + join(excluded_assignments(non_key_columns(cols, keys)), ", "@)
}

impl SqlDialect for DefaultDialect {
    open spec fn spec_quote_identifier(&self, ident: Seq<char>) -> Seq<char> {
        dquoted(ident)
    }

    open spec fn spec_table_name(&self, env: Seq<char>, name: Seq<char>) -> Seq<char> {
        env + "_"@ + name
    }

    open spec fn spec_merge_upsert(&self, target: Seq<char>, source: Seq<char>, unique_keys: Seq<Seq<char>>,
        columns: Seq<Seq<char>>) -> Seq<char> {
        default_merge_upsert(target, source, unique_keys, columns)
    }

    open spec fn spec_partition_overwrite(&self, target: Seq<char>, source: Seq<char>, partition_key: Seq<char>,
        columns: Seq<Seq<char>>) -> Seq<char> {
        "INSERT OVERWRITE "@ + target + " SELECT "@ + join(prefixed_quoted(columns, ""@), ", "@) + " FROM "@ + source
    }

    open spec fn spec_map_type(&self, data_type: DataType) -> Seq<char> {
        default_map_type(data_type)
    }

    open spec fn spec_is_safe_widening(&self, source_type: Seq<char>, target_type: Seq<char>) -> bool {
        default_is_safe_widening(str_to_uppercase(source_type), str_to_uppercase(target_type))
    }

    open spec fn spec_describe_table_sql(&self, table: Seq<char>) -> Seq<char> {
        "DESCRIBE TABLE "@ + table
    }

    fn quote_identifier(&self, ident: &str) -> (r: String) {
        dquote(ident)
    }

    fn table_name(&self, env: &str, name: &str) -> (r: String) {
        let mut r = to_owned_string(env);
        r.append("_");
        r.append(name);
        r
    }

    fn merge_upsert(&self, target: &str, source: &str, unique_keys: &Vec<String>, columns: &Vec<String>) -> (r: String) {
        let pk_join = join_strings(&key_match_list(unique_keys), " AND ");
        let cols = join_strings(&prefix_quote_all(columns, "s."), ", ");
        let t_cols = join_strings(&prefix_quote_all(columns, "t."), ", ");
        let mut r = to_owned_string("SELECT ");
        r.append(cols.as_str());
        r.append(" FROM ");
        r.append(source);
        r.append(" s UNION ALL SELECT ");
        r.append(t_cols.as_str());
        r.append(" FROM ");
        r.append(target);
        r.append(" t WHERE NOT EXISTS (SELECT 1 FROM ");
        r.append(source);
        r.append(" s WHERE ");
        r.append(pk_join.as_str());
        r.append(")");
        r
    }

    fn partition_overwrite(&self, target: &str, source: &str, partition_key: &str, columns: &Vec<String>) -> (r: String) {
        let cols = join_strings(&prefix_quote_all(columns, ""), ", ");
        let mut r = to_owned_string("INSERT OVERWRITE ");
        r.append(target);
        r.append(" SELECT ");
        r.append(cols.as_str());
        r.append(" FROM ");
        r.append(source);
        r
    }

    fn map_type(&self, data_type: DataType) -> (r: String) {
        match data_type {
            DataType::Utf8 | DataType::LargeUtf8 => to_owned_string("VARCHAR"),
            DataType::Int32 | DataType::Int64 => to_owned_string("BIGINT"),
            DataType::Float32 | DataType::Float64 => to_owned_string("DOUBLE"),
            DataType::Boolean => to_owned_string("BOOLEAN"),
            DataType::Timestamp => to_owned_string("TIMESTAMP"),
            _ => to_owned_string("VARCHAR"),
        }
    }

    fn is_safe_widening(&self, source_type: &str, target_type: &str) -> (r: bool) {
        let src = to_uppercase(source_type);
        let tgt = to_uppercase(target_type);
        let s = src.as_str();
        let t = tgt.as_str();
        str_eq(s, t)
            || (str_eq(s, "INT") || str_eq(s, "INTEGER")) && str_eq(t, "BIGINT")
            || (str_eq(s, "FLOAT") || str_eq(s, "REAL")) && str_eq(t, "DOUBLE")
            || str_eq(t, "VARCHAR") || str_eq(t, "STRING") || str_eq(t, "TEXT")
    }

    fn describe_table_sql(&self, table: &str) -> (r: String) {
        let mut r = to_owned_string("DESCRIBE TABLE ");
        r.append(table);
        r
    }
}

/// `s."k" = t."k"` for each key.
fn key_match_list(keys: &Vec<String>) -> (r: Vec<String>)
    ensures
        views(r@) == key_matches(views(keys@)),
{
    let mut r: Vec<String> = Vec::new();
    let mut i: usize = 0;
    while i < keys.len()
        invariant
            i <= keys.len(),
            views(r@) == key_matches(views(keys@)).take(i as int),
        decreases keys.len() - i,
    {
        let q = dquote(keys[i].as_str());
        let mut item = to_owned_string("s.");
        item.append(q.as_str());
        item.append(" = t.");
        item.append(q.as_str());
        let ghost before = r@;
        r.push(item);
        assert(views(r@) =~= key_matches(views(keys@)).take(i as int + 1)) by {
            assert(views(r@) =~= views(before).push(key_matches(views(keys@))[i as int]));
        }
        i = i + 1;
    }
    assert(key_matches(views(keys@)).take(keys.len() as int) =~= key_matches(views(keys@)));
    r
}

/// `"c" = EXCLUDED."c"` for each column that is not a key.
fn excluded_list(cols: &Vec<String>, keys: &Vec<String>) -> (r: Vec<String>)
    ensures
        views(r@) == excluded_assignments(non_key_columns(views(cols@), views(keys@))),
{
    let ghost pred = |c: Seq<char>| !views(keys@).contains(c);
    let mut r: Vec<String> = Vec::new();
    let mut i: usize = 0;
    while i < cols.len()
        invariant
            i <= cols.len(),
            pred == (|c: Seq<char>| !views(keys@).contains(c)),
            views(r@) == excluded_assignments(views(cols@).take(i as int).filter(pred)),
        decreases cols.len() - i,
    {
        let ghost cv = views(cols@).take(i as int + 1);
        assert(cv.drop_last() =~= views(cols@).take(i as int));
        assert(cv.last() == cols@[i as int]@);
        let is_key = index_of_str(keys, cols[i].as_str()).is_some();
        if !is_key {
            let q = dquote(cols[i].as_str());
            let mut item = q.clone();
            item.append(" = EXCLUDED.");
            item.append(q.as_str());
            let ghost before = r@;
            r.push(item);
            assert(views(r@) =~= views(before).push(dquoted(cols@[i as int]@) + " = EXCLUDED."@ + dquoted(cols@[i as int]@)));
            assert(cv.filter(pred) == cv.drop_last().filter(pred).push(cv.last())) by {
                reveal_with_fuel(Seq::<_>::filter, 1);
            }
            assert(views(r@) =~= excluded_assignments(cv.filter(pred)));
        } else {
            assert(cv.filter(pred) == cv.drop_last().filter(pred)) by {
                reveal_with_fuel(Seq::<_>::filter, 1);
            }
        }
        i = i + 1;
    }
    assert(views(cols@).take(cols.len() as int) =~= views(cols@));
    r
}

impl SqlDialect for PostgresDialect {
    open spec fn spec_quote_identifier(&self, ident: Seq<char>) -> Seq<char> {
        dquoted(ident)
    }

    open spec fn spec_table_name(&self, env: Seq<char>, name: Seq<char>) -> Seq<char> {
        env + "."@ + name
    }

    open spec fn spec_merge_upsert(&self, target: Seq<char>, source: Seq<char>, unique_keys: Seq<Seq<char>>,
        columns: Seq<Seq<char>>) -> Seq<char> {
        postgres_merge_upsert(target, source, unique_keys, columns)
    }

    open spec fn spec_partition_overwrite(&self, target: Seq<char>, source: Seq<char>, partition_key: Seq<char>,
        columns: Seq<Seq<char>>) -> Seq<char> {
        "BEGIN; DELETE FROM "@ + target + " WHERE "@ + dquoted(partition_key) + " IN (SELECT "@ + dquoted(partition_key)
            + " FROM "@ + source + "); INSERT INTO "@ + target + " SELECT * FROM "@ + source + "; COMMIT;"@
    }

    open spec fn spec_map_type(&self, data_type: DataType) -> Seq<char> {
        postgres_map_type(data_type)
    }

    open spec fn spec_is_safe_widening(&self, source_type: Seq<char>, target_type: Seq<char>) -> bool {
        postgres_is_safe_widening(str_to_uppercase(source_type), str_to_uppercase(target_type))
    }

    open spec fn spec_describe_table_sql(&self, table: Seq<char>) -> Seq<char> {
        "SELECT column_name, data_type FROM information_schema.columns WHERE table_name = '"@ + table + "'"@
    }

    fn quote_identifier(&self, ident: &str) -> (r: String) {
        dquote(ident)
    }

    fn table_name(&self, env: &str, name: &str) -> (r: String) {
        let mut r = to_owned_string(env);
        r.append(".");
        r.append(name);
        r
    }

    fn merge_upsert(&self, target: &str, source: &str, unique_keys: &Vec<String>, columns: &Vec<String>) -> (r: String) {
        let update_cols = join_strings(&excluded_list(columns, unique_keys), ", ");
        let pks = join_strings(&prefix_quote_all(unique_keys, ""), ", ");
        let mut r = to_owned_string("INSERT INTO ");
        r.append(target);
        r.append(" SELECT * FROM ");
        r.append(source);
        r.append(" ON CONFLICT (");
        r.append(pks.as_str());
        r.append(") DO UPDATE SET ");
        r.append(update_cols.as_str());
        r
    }

    fn partition_overwrite(&self, target: &str, source: &str, partition_key: &str, columns: &Vec<String>) -> (r: String) {
        let pk = dquote(partition_key);
        let mut r = to_owned_string("BEGIN; DELETE FROM ");
        r.append(target);
        r.append(" WHERE ");
        r.append(pk.as_str());
        r.append(" IN (SELECT ");
        r.append(pk.as_str());
        r.append(" FROM ");
        r.append(source);
        r.append("); INSERT INTO ");
        r.append(target);
        r.append(" SELECT * FROM ");
        r.append(source);
        r.append("; COMMIT;");
        r
    }

    fn map_type(&self, data_type: DataType) -> (r: String) {
        match data_type {
            DataType::Utf8 | DataType::LargeUtf8 => to_owned_string("TEXT"),
            DataType::Int32 => to_owned_string("INT"),
            DataType::Int64 => to_owned_string("BIGINT"),
            DataType::Float32 => to_owned_string("REAL"),
            DataType::Float64 => to_owned_string("DOUBLE PRECISION"),
            DataType::Boolean => to_owned_string("BOOLEAN"),
            _ => to_owned_string("TEXT"),
        }
    }

    fn is_safe_widening(&self, source_type: &str, target_type: &str) -> (r: bool) {
        let src = to_uppercase(source_type);
        let tgt = to_uppercase(target_type);
        let s = src.as_str();
        let t = tgt.as_str();
        str_eq(s, t)
            || (str_eq(s, "INT") || str_eq(s, "INTEGER")) && str_eq(t, "BIGINT")
            || str_eq(s, "REAL") && str_eq(t, "DOUBLE PRECISION")
            || str_eq(t, "TEXT") || str_eq(t, "VARCHAR")
    }

    fn describe_table_sql(&self, table: &str) -> (r: String) {
        let mut r = to_owned_string("SELECT column_name, data_type FROM information_schema.columns WHERE table_name = '");
        r.append(table);
        r.append("'");
        r
    }
}

/// A dialect chosen at run time by the target type.
pub enum AnyDialect {
    Default(DefaultDialect),
    Postgres(PostgresDialect),
}

impl SqlDialect for AnyDialect {
    open spec fn spec_quote_identifier(&self, ident: Seq<char>) -> Seq<char> {
        match self {
            AnyDialect::Default(d) => d.spec_quote_identifier(ident),
            AnyDialect::Postgres(d) => d.spec_quote_identifier(ident),
        }
    }

    open spec fn spec_table_name(&self, env: Seq<char>, name: Seq<char>) -> Seq<char> {
        match self {
            AnyDialect::Default(d) => d.spec_table_name(env, name),
            AnyDialect::Postgres(d) => d.spec_table_name(env, name),
        }
    }

    open spec fn spec_merge_upsert(&self, target: Seq<char>, source: Seq<char>, unique_keys: Seq<Seq<char>>,
        columns: Seq<Seq<char>>) -> Seq<char> {
        match self {
            AnyDialect::Default(d) => d.spec_merge_upsert(target, source, unique_keys, columns),
            AnyDialect::Postgres(d) => d.spec_merge_upsert(target, source, unique_keys, columns),
        }
    }

    open spec fn spec_partition_overwrite(&self, target: Seq<char>, source: Seq<char>, partition_key: Seq<char>,
        columns: Seq<Seq<char>>) -> Seq<char> {
        match self {
            AnyDialect::Default(d) => d.spec_partition_overwrite(target, source, partition_key, columns),
            AnyDialect::Postgres(d) => d.spec_partition_overwrite(target, source, partition_key, columns),
        }
    }

    open spec fn spec_map_type(&self, data_type: DataType) -> Seq<char> {
        match self {
            AnyDialect::Default(d) => d.spec_map_type(data_type),
            AnyDialect::Postgres(d) => d.spec_map_type(data_type),
        }
    }

    open spec fn spec_is_safe_widening(&self, source_type: Seq<char>, target_type: Seq<char>) -> bool {
        match self {
            AnyDialect::Default(d) => d.spec_is_safe_widening(source_type, target_type),
            AnyDialect::Postgres(d) => d.spec_is_safe_widening(source_type, target_type),
        }
    }

    open spec fn spec_describe_table_sql(&self, table: Seq<char>) -> Seq<char> {
        match self {
            AnyDialect::Default(d) => d.spec_describe_table_sql(table),
            AnyDialect::Postgres(d) => d.spec_describe_table_sql(table),
        }
    }

    fn quote_identifier(&self, ident: &str) -> (r: String) {
        match self {
            AnyDialect::Default(d) => d.quote_identifier(ident),
            AnyDialect::Postgres(d) => d.quote_identifier(ident),
        }
    }

    fn table_name(&self, env: &str, name: &str) -> (r: String) {
        match self {
            AnyDialect::Default(d) => d.table_name(env, name),
            AnyDialect::Postgres(d) => d.table_name(env, name),
        }
    }

    fn merge_upsert(&self, target: &str, source: &str, unique_keys: &Vec<String>, columns: &Vec<String>) -> (r: String) {
        match self {
            AnyDialect::Default(d) => d.merge_upsert(target, source, unique_keys, columns),
            AnyDialect::Postgres(d) => d.merge_upsert(target, source, unique_keys, columns),
        }
    }

    fn partition_overwrite(&self, target: &str, source: &str, partition_key: &str, columns: &Vec<String>) -> (r: String) {
        match self {
            AnyDialect::Default(d) => d.partition_overwrite(target, source, partition_key, columns),
            AnyDialect::Postgres(d) => d.partition_overwrite(target, source, partition_key, columns),
        }
    }

    fn map_type(&self, data_type: DataType) -> (r: String) {
        match self {
            AnyDialect::Default(d) => d.map_type(data_type),
            AnyDialect::Postgres(d) => d.map_type(data_type),
        }
    }

    fn is_safe_widening(&self, source_type: &str, target_type: &str) -> (r: bool) {
        match self {
            AnyDialect::Default(d) => d.is_safe_widening(source_type, target_type),
            AnyDialect::Postgres(d) => d.is_safe_widening(source_type, target_type),
        }
    }

    fn describe_table_sql(&self, table: &str) -> (r: String) {
        match self {
            AnyDialect::Default(d) => d.describe_table_sql(table),
            AnyDialect::Postgres(d) => d.describe_table_sql(table),
        }
    }
}

/// The dialect of a target type: Postgres for "postgres", the default
/// dialect for any other target.
pub fn get_dialect(target_type: &str) -> (d: AnyDialect)
    ensures
        (target_type@ == "postgres"@) ==> d is Postgres,
        (target_type@ != "postgres"@) ==> d is Default,
{
    if str_eq(target_type, "postgres") {
        AnyDialect::Postgres(PostgresDialect)
    } else {
        AnyDialect::Default(DefaultDialect)
    }
}

/// The upsert of the default dialect keeps a target row only when no source
/// row equals it on every unique key: its NOT EXISTS condition is the
/// conjunction of one equality per key. With one key the condition is that
/// key's equality, and each further key adds one more conjunct
/// ` AND s."k" = t."k"` at the end.
pub proof fn lemma_merge_upsert_conjunction(target: Seq<char>, source: Seq<char>, keys: Seq<Seq<char>>,
    k: Seq<char>, cols: Seq<Seq<char>>)
    ensures
        default_merge_upsert(target, source, seq![k], cols)
            == default_merge_upsert(target, source, Seq::empty(), cols).drop_last()
                + "s."@ + dquoted(k) + " = t."@ + dquoted(k) + ")"@,
        keys.len() >= 1 ==> default_merge_upsert(target, source, keys.push(k), cols)
            == default_merge_upsert(target, source, keys, cols).drop_last()
                + " AND "@ + "s."@ + dquoted(k) + " = t."@ + dquoted(k) + ")"@,
{
    let eq = "s."@ + dquoted(k) + " = t."@ + dquoted(k);
    let head = "SELECT "@ + join(prefixed_quoted(cols, "s."@), ", "@) + " FROM "@ + source
        + " s UNION ALL SELECT "@ + join(prefixed_quoted(cols, "t."@), ", "@) + " FROM "@ + target
        + " t WHERE NOT EXISTS (SELECT 1 FROM "@ + source + " s WHERE "@;
    let close = ")"@;
    reveal_strlit(")");
    assert(key_matches(Seq::empty()) =~= Seq::<Seq<char>>::empty());
    assert(key_matches(seq![k]) =~= seq![eq]);
    assert(default_merge_upsert(target, source, Seq::empty(), cols) =~= head + close);
    assert((head + close).drop_last() =~= head);
    assert(default_merge_upsert(target, source, seq![k], cols) =~= head + eq + close);
    if keys.len() >= 1 {
        let km = key_matches(keys);
        assert(key_matches(keys.push(k)) =~= km.push(eq));
        assert(km.push(eq).drop_last() =~= km);
        let j = join(km, " AND "@);
        assert(join(km.push(eq), " AND "@) == j + " AND "@ + eq);
        assert(default_merge_upsert(target, source, keys, cols) =~= head + j + close);
        assert((head + j + close).drop_last() =~= head + j);
        assert(default_merge_upsert(target, source, keys.push(k), cols) =~= head + (j + " AND "@ + eq) + close);
        assert(head + (j + " AND "@ + eq) + close =~= head + j + " AND "@ + eq + close);
    }
}

} // verus!
