use titan_engine::titan_core::quote_identifier;
use titan_engine::titan_core::masking::MaskStrategy;
use titan_engine::titan_core::shadow::{ShadowConfig, ShadowRewriter};
use titan_engine::titan_core::sql::TitanSQL;
use titan_engine::titan_core::dialect::{get_dialect, AnyDialect, DataType, DefaultDialect, PostgresDialect, SqlDialect};

fn strings(v: &[&str]) -> Vec<String> {
    v.iter().map(|s| s.to_string()).collect()
}

#[test]
fn quote_identifier_wraps_in_double_quotes() {
    assert_eq!(quote_identifier("users"), "\"users\"");
}

#[test]
fn quote_identifier_doubles_inner_quotes() {
    assert_eq!(quote_identifier("a\"b"), "\"a\"\"b\"");
    assert_eq!(quote_identifier(""), "\"\"");
}

#[test]
fn quote_identifier_distinguishes_inputs() {
    assert_ne!(quote_identifier("a\""), quote_identifier("a\"\""));
}

#[test]
fn mask_strategy_names() {
    assert_eq!(MaskStrategy::Hash.as_str(), "hash");
    assert_eq!(MaskStrategy::Redact.as_str(), "redact");
    assert_eq!(MaskStrategy::Partial.as_str(), "partial");
    assert_eq!(MaskStrategy::Unmasked.as_str(), "none");
}

#[test]
fn mask_strategy_expressions() {
    assert_eq!(MaskStrategy::Hash.apply("email"), "sha256(CAST(email AS VARCHAR))");
    assert_eq!(MaskStrategy::Redact.apply("email"), "'***'");
    assert_eq!(
        MaskStrategy::Partial.apply("ssn"),
        "CASE WHEN length(CAST(ssn AS VARCHAR)) < 5 THEN '***' ELSE concat(substring(CAST(ssn AS VARCHAR), 1, 2), '***', substring(CAST(ssn AS VARCHAR), length(CAST(ssn AS VARCHAR)) - 1, 2)) END"
    );
    assert_eq!(MaskStrategy::Unmasked.apply("email"), "email");
}

#[test]
fn shadow_default_suffix() {
    let cfg = ShadowConfig::default();
    assert_eq!(ShadowRewriter::rewrite_target("orders", &cfg), "orders_shadow");
}

#[test]
fn shadow_custom_suffix() {
    let cfg = ShadowConfig { suffix: Some("_canary".to_string()), schema_override: None };
    assert_eq!(ShadowRewriter::rewrite_target("orders", &cfg), "orders_canary");
}

#[test]
fn shadow_schema_override() {
    let cfg = ShadowConfig { suffix: None, schema_override: Some("shadow".to_string()) };
    assert_eq!(ShadowRewriter::rewrite_target("analytics.orders", &cfg), "shadow.orders");
    assert_eq!(ShadowRewriter::rewrite_target("orders", &cfg), "shadow.orders");
    assert_eq!(ShadowRewriter::rewrite_target("a.b.c", &cfg), "shadow.c");
}

#[test]
fn titan_sql_keeps_text() {
    let s = TitanSQL::new("SELECT 1".to_string());
    assert_eq!(s.as_str(), "SELECT 1");
    assert_eq!(s.to_string(), "SELECT 1");
    assert_eq!(s.into_inner(), "SELECT 1");
}

#[test]
fn default_dialect_statements() {
    let d = DefaultDialect;
    assert_eq!(d.quote_identifier("id"), "\"id\"");
    assert_eq!(d.table_name("dev", "orders"), "dev_orders");
    assert_eq!(d.create_table_as("t", "SELECT 1"), "CREATE TABLE t AS SELECT 1");
    assert_eq!(
        d.merge_upsert("tgt", "src", &strings(&["id"]), &strings(&["id", "name"])),
        "SELECT s.\"id\", s.\"name\" FROM src s UNION ALL SELECT t.\"id\", t.\"name\" FROM tgt t WHERE NOT EXISTS (SELECT 1 FROM src s WHERE s.\"id\" = t.\"id\")"
    );
    assert_eq!(
        d.partition_overwrite("tgt", "src", "dt", &strings(&["a", "b"])),
        "INSERT OVERWRITE tgt SELECT \"a\", \"b\" FROM src"
    );
    assert_eq!(d.add_column_sql("t", "c", "BIGINT"), "ALTER TABLE t ADD COLUMN c BIGINT");
    assert_eq!(d.alter_column_type_sql("t", "c", "BIGINT"), "ALTER TABLE t ALTER COLUMN c TYPE BIGINT");
    assert_eq!(d.describe_table_sql("t"), "DESCRIBE TABLE t");
}

#[test]
fn default_dialect_types() {
    let d = DefaultDialect;
    assert_eq!(d.map_type(DataType::Utf8), "VARCHAR");
    assert_eq!(d.map_type(DataType::Int32), "BIGINT");
    assert_eq!(d.map_type(DataType::Float64), "DOUBLE");
    assert_eq!(d.map_type(DataType::Boolean), "BOOLEAN");
    assert_eq!(d.map_type(DataType::Timestamp), "TIMESTAMP");
    assert_eq!(d.map_type(DataType::Other), "VARCHAR");
    assert_eq!(d.cast("x", DataType::Int64), "CAST(x AS BIGINT)");
    assert!(d.is_safe_widening("int", "BIGINT"));
    assert!(d.is_safe_widening("real", "double"));
    assert!(d.is_safe_widening("BIGINT", "text"));
    assert!(d.is_safe_widening("Date", "DATE"));
    assert!(!d.is_safe_widening("BIGINT", "INT"));
}

#[test]
fn postgres_dialect_statements() {
    let d = PostgresDialect;
    assert_eq!(d.table_name("dev", "orders"), "dev.orders");
    assert_eq!(
        d.merge_upsert("tgt", "src", &strings(&["id"]), &strings(&["id", "name", "age"])),
        "INSERT INTO tgt SELECT * FROM src ON CONFLICT (\"id\") DO UPDATE SET \"name\" = EXCLUDED.\"name\", \"age\" = EXCLUDED.\"age\""
    );
    assert_eq!(
        d.partition_overwrite("tgt", "src", "dt", &strings(&["a"])),
        "BEGIN; DELETE FROM tgt WHERE \"dt\" IN (SELECT \"dt\" FROM src); INSERT INTO tgt SELECT * FROM src; COMMIT;"
    );
    assert_eq!(
        d.describe_table_sql("orders"),
        "SELECT column_name, data_type FROM information_schema.columns WHERE table_name = 'orders'"
    );
    assert_eq!(d.map_type(DataType::Int32), "INT");
    assert_eq!(d.map_type(DataType::Float64), "DOUBLE PRECISION");
    assert_eq!(d.map_type(DataType::Utf8), "TEXT");
    assert!(d.is_safe_widening("real", "double precision"));
    assert!(!d.is_safe_widening("float", "double"));
}

#[test]
fn dialect_is_chosen_by_target_type() {
    assert!(matches!(get_dialect("postgres"), AnyDialect::Postgres(_)));
    assert!(matches!(get_dialect("delta"), AnyDialect::Default(_)));
    assert!(matches!(get_dialect("Postgres"), AnyDialect::Default(_)));
}

#[test]
fn quote_identifier_length_and_round_trip() {
    let ident = "we\"ird\"";
    let q = quote_identifier(ident);
    assert_eq!(q.chars().count(), ident.chars().count() + 2 + 2);
    assert!(q.starts_with('"') && q.ends_with('"'));
    assert_eq!(q[1..q.len() - 1].replace("\"\"", "\""), ident);
}

#[test]
fn shadow_rewrite_with_schema_is_idempotent() {
    let cfg = ShadowConfig { suffix: Some("_x".to_string()), schema_override: Some("shadow".to_string()) };
    let once = ShadowRewriter::rewrite_target("prod.sales.orders", &cfg);
    assert_eq!(once, "shadow.orders");
    assert_eq!(ShadowRewriter::rewrite_target(&once, &cfg), once);
}
