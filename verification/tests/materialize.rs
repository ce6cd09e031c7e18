use titan_engine::materialize::{get_materializer, Materialization, MaterializerStrategy};
use titan_engine::materialize::snapshot::{
    new_source_fields, required_unique_key, run_scoped_table_name, snapshot_init_sql, snapshot_merge_sql,
    snapshot_table_dir, snapshot_retention, MAX_RETENTION_DAYS,
};
use titan_engine::materialize::incremental::{
    incremental_merge_sql, incremental_table_dir, incremental_write_mode, resulting_columns, split_unique_keys,
    WriteMode,
};
use titan_engine::titan_core::dialect::{AnyDialect, DataType, DefaultDialect, Field, PostgresDialect};
use titan_engine::project::{ModelColumn, OnSchemaChange, RetentionConfig};
use std::path::PathBuf;
use titan_engine::error::TitanError;

fn field(name: &str, t: DataType) -> Field {
    Field { name: name.to_string(), data_type: t, nullable: true }
}

#[test]
fn materialization_parsing() {
    assert_eq!(Materialization::from_str("table"), Materialization::Table);
    assert_eq!(Materialization::from_str("INCREMENTAL"), Materialization::Incremental);
    assert_eq!(Materialization::from_str("Snapshot"), Materialization::Snapshot);
    assert_eq!(Materialization::from_str("ephemeral"), Materialization::Ephemeral);
    assert_eq!(Materialization::from_str("view"), Materialization::View);
    assert_eq!(Materialization::from_str("materialized_view"), Materialization::View);
    assert_eq!(Materialization::from_str(""), Materialization::View);
}

fn col(name: &str, ty: Option<&str>) -> ModelColumn {
    ModelColumn { name: name.to_string(), data_type: ty.map(|t| t.to_string()), masking: None }
}

#[test]
fn materializer_choice() {
    let cols = vec![col("id", Some("BIGINT")), col("price", Some("double")), col("note", None), col("tag", Some("text"))];
    assert!(matches!(get_materializer(Materialization::Table, None, None, "adbc", None, OnSchemaChange::Ignore, PathBuf::from("/p"), &cols), MaterializerStrategy::Adbc));
    assert!(matches!(get_materializer(Materialization::View, None, None, "adbc", None, OnSchemaChange::Ignore, PathBuf::from("/p"), &cols), MaterializerStrategy::View));
    assert!(matches!(get_materializer(Materialization::Ephemeral, None, None, "delta", None, OnSchemaChange::Ignore, PathBuf::from("/p"), &cols), MaterializerStrategy::View));
    assert!(matches!(get_materializer(Materialization::Table, None, None, "delta", None, OnSchemaChange::Ignore, PathBuf::from("/p"), &cols), MaterializerStrategy::Table));
    match get_materializer(Materialization::Snapshot, Some("id".to_string()), None, "delta", Some(RetentionConfig { snapshots_days: 30 }), OnSchemaChange::Ignore, PathBuf::from("/p"), &cols) {
        MaterializerStrategy::Snapshot { unique_key, retention_days, base_path } => {
            assert_eq!(unique_key.as_deref(), Some("id"));
            assert_eq!(retention_days, Some(30));
            assert_eq!(base_path, PathBuf::from("/p"));
        }
        _ => panic!("expected a snapshot strategy"),
    }
    match get_materializer(Materialization::Incremental, Some("id".to_string()), Some("dt".to_string()), "postgres", None, OnSchemaChange::Fail, PathBuf::from("/p"), &cols) {
        MaterializerStrategy::Incremental { unique_key, partition_by, on_schema_change, base_path, dialect, column_map } => {
            assert_eq!(unique_key.as_deref(), Some("id"));
            assert_eq!(on_schema_change, OnSchemaChange::Fail);
            assert_eq!(base_path, PathBuf::from("/p"));
            assert_eq!(partition_by.as_deref(), Some("dt"));
            assert!(matches!(dialect, AnyDialect::Postgres(_)));
            let out = column_map.reconcile(&vec![field("id", DataType::Int32), field("price", DataType::Float32),
                field("note", DataType::Utf8), field("tag", DataType::Utf8)]);
            assert_eq!(out[0].data_type, DataType::Int64);
            assert_eq!(out[1].data_type, DataType::Float64);
            assert_eq!(out[2].data_type, DataType::Utf8);
            assert_eq!(out[3].data_type, DataType::Utf8);
        }
        _ => panic!("expected an incremental strategy"),
    }
}

#[test]
fn snapshot_requires_unique_key() {
    assert_eq!(required_unique_key(&Some("id".to_string())).unwrap(), "id");
    match required_unique_key(&None) {
        Err(TitanError::ValidationError(m)) => assert_eq!(m, "unique_key is required for snapshots"),
        other => panic!("unexpected {:?}", other),
    }
}

#[test]
fn snapshot_names_and_paths() {
    assert_eq!(snapshot_table_dir("dev", "users"), "snapshots/dev/users");
    assert_eq!(run_scoped_table_name("source", "users", "h", "e"), "source_users_h_e");
    assert_eq!(incremental_table_dir("dev", "users"), "tables/dev/users");
}

#[test]
fn snapshot_initial_statement() {
    let src = vec![field("id", DataType::Int64), field("name", DataType::Utf8)];
    assert_eq!(
        snapshot_init_sql(&src, "abc", 1700, "source_users"),
        "SELECT \"id\", \"name\", 'abc' as titan_logic_hash, 1700 as titan_valid_from, CAST(NULL AS BIGINT) as titan_valid_to FROM \"source_users\""
    );
}

#[test]
fn snapshot_merge_statement() {
    let current = vec![
        field("id", DataType::Int64),
        field("titan_logic_hash", DataType::Utf8),
        field("titan_valid_from", DataType::Int64),
        field("titan_valid_to", DataType::Int64),
    ];
    let source = vec![field("id", DataType::Int64), field("email", DataType::Utf8)];
    let added = new_source_fields(&source, &current);
    assert_eq!(added.len(), 1);
    assert_eq!(added[0].name, "email");
    let sql = snapshot_merge_sql(&current, &added, "src", "snap", "id", "h1", 5);
    let expected = format!(
        "\n                -- 1. Unchanged or already expired rows: Keep as is\n                SELECT {all} FROM \"snap\" c\n                WHERE c.titan_valid_to IS NOT NULL \n                OR (c.titan_valid_to IS NULL AND c.titan_logic_hash = 'h1')\n                UNION ALL\n                -- 2. Active records that need expiring (hash changed or row deleted)\n                SELECT {exp} FROM \"snap\" c\n                WHERE c.titan_valid_to IS NULL AND c.titan_logic_hash != 'h1'\n                UNION ALL\n                -- 3. New records from source that don't match any active row hash\n                SELECT {new} FROM \"src\" s\n                WHERE NOT EXISTS (\n                    SELECT 1 FROM \"snap\" c \n                    WHERE s.\"id\" = c.\"id\" AND c.titan_valid_to IS NULL AND c.titan_logic_hash = 'h1'\n                )\n                ",
        all = "c.\"id\", c.\"titan_logic_hash\", c.\"titan_valid_from\", c.\"titan_valid_to\", CAST(NULL AS VARCHAR) as \"email\"",
        exp = "c.\"id\", c.\"titan_logic_hash\", c.\"titan_valid_from\", CAST(5 AS BIGINT) as \"titan_valid_to\", CAST(NULL AS VARCHAR) as \"email\"",
        new = "s.\"id\" as \"id\", CAST('h1' AS VARCHAR) as \"titan_logic_hash\", CAST(5 AS BIGINT) as \"titan_valid_from\", CAST(NULL AS BIGINT) as \"titan_valid_to\", s.\"email\" as \"email\"",
    );
    assert_eq!(sql, expected);
}

#[test]
fn incremental_keys_and_columns() {
    assert_eq!(split_unique_keys("id, region ,day"), vec!["id".to_string(), "region".to_string(), "day".to_string()]);
    assert_eq!(split_unique_keys("id"), vec!["id".to_string()]);
    let target = vec![field("id", DataType::Int64), field("v", DataType::Utf8)];
    let source = vec![field("id", DataType::Int64), field("w", DataType::Boolean)];
    let (cols, merge_schema) = resulting_columns(&target, &source);
    assert_eq!(cols, vec!["id".to_string(), "v".to_string(), "w".to_string()]);
    assert!(merge_schema);
    let (_, same) = resulting_columns(&target, &target);
    assert!(!same);
}

#[test]
fn incremental_statements() {
    let cols = vec!["id".to_string(), "v".to_string()];
    assert_eq!(
        incremental_merge_sql(&DefaultDialect, "tgt", "src", "id", &None, &cols),
        "SELECT s.\"id\", s.\"v\" FROM \"src\" s UNION ALL SELECT t.\"id\", t.\"v\" FROM \"tgt\" t WHERE NOT EXISTS (SELECT 1 FROM \"src\" s WHERE s.\"id\" = t.\"id\")"
    );
    assert_eq!(
        incremental_merge_sql(&DefaultDialect, "tgt", "src", "id", &Some("dt".to_string()), &cols),
        "INSERT OVERWRITE \"tgt\" SELECT \"id\", \"v\" FROM \"src\""
    );
    assert_eq!(
        incremental_merge_sql(&PostgresDialect, "tgt", "src", "id", &None, &cols),
        "INSERT INTO \"tgt\" SELECT * FROM \"src\" ON CONFLICT (\"id\") DO UPDATE SET \"v\" = EXCLUDED.\"v\""
    );
}

#[test]
fn incremental_write_modes() {
    assert_eq!(incremental_write_mode(false, true), WriteMode::ErrorIfExists);
    assert_eq!(incremental_write_mode(true, true), WriteMode::Overwrite);
    assert_eq!(incremental_write_mode(true, false), WriteMode::Append);
}

#[test]
fn snapshot_retention_matches_chrono_bounds() {
    assert_eq!(snapshot_retention(None).unwrap(), None);
    assert_eq!(snapshot_retention(Some(7)).unwrap(), Some(7));
    for d in [MAX_RETENTION_DAYS, -MAX_RETENTION_DAYS, 0, 30] {
        assert!(chrono::TimeDelta::try_days(d).is_some());
        assert_eq!(snapshot_retention(Some(d)).unwrap(), Some(d));
    }
    for d in [MAX_RETENTION_DAYS + 1, -MAX_RETENTION_DAYS - 1, i64::MAX, i64::MIN] {
        assert!(chrono::TimeDelta::try_days(d).is_none());
        match snapshot_retention(Some(d)) {
            Err(TitanError::ValidationError(m)) => assert_eq!(m, "Invalid retention days"),
            other => panic!("unexpected {:?}", other),
        }
    }
}
