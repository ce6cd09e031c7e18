use titan_engine::titan_core::drift::{ColumnInfo, DriftAction, DriftDetector};
use titan_engine::titan_core::dialect::{DataType, DefaultDialect, Field, PostgresDialect};
use titan_engine::titan_core::column_map::ColumnMap;
use titan_engine::titan_core::lineage::{ColumnLineage, LineageDiff, LineageDiffer, LineageResult, QualifiedColumn, TransformKind};
use titan_engine::titan_core::lineage_diff;
use titan_engine::titan_core::lineage_extract::LineageExtractor;
use titan_engine::titan_core::ci_diff::{row_count_query, schema_query, CIDiffer, ModelDiffStatus};
use titan_engine::titan_core::audit::{AuditEntry, AuditLogger};
use titan_engine::error::TitanError;

fn col(name: &str, ty: &str) -> ColumnInfo {
    ColumnInfo { name: name.to_string(), data_type: ty.to_string() }
}

fn edge(model: &str, column: &str, target: &str, t: TransformKind) -> ColumnLineage {
    ColumnLineage {
        source: QualifiedColumn { model: model.to_string(), column: column.to_string() },
        target_column: target.to_string(),
        transform: t,
    }
}

fn result(columns: Vec<ColumnLineage>) -> LineageResult {
    LineageResult { source_models: vec!["orders".to_string()], columns, has_star: false }
}

#[test]
fn drift_added_and_widened_columns() {
    let source = vec![col("id", "BIGINT"), col("email", "VARCHAR")];
    let target = vec![col("ID", "INT"), col("legacy", "TEXT")];
    let d = DriftDetector::detect(&source, &target, &DefaultDialect);
    assert_eq!(d.added_columns.len(), 1);
    assert_eq!(d.added_columns[0].name, "email");
    assert_eq!(d.changed_columns.len(), 1);
    assert_eq!(d.changed_columns[0].name, "id");
    assert_eq!(d.changed_columns[0].source_type, "BIGINT");
    assert_eq!(d.changed_columns[0].target_type, "INT");
    assert!(d.changed_columns[0].is_safe);
    assert_eq!(d.dropped_columns, vec!["legacy".to_string()]);
    assert_eq!(d.action, DriftAction::AlterTable);
    let sql = DriftDetector::generate_alter_sql("dev_users", &d, &DefaultDialect);
    assert_eq!(sql, vec![
        "ALTER TABLE dev_users ADD COLUMN email VARCHAR".to_string(),
        "ALTER TABLE dev_users ALTER COLUMN id TYPE BIGINT".to_string(),
    ]);
}

#[test]
fn drift_unsafe_change_recreates() {
    let source = vec![col("amount", "INT")];
    let target = vec![col("amount", "BIGINT")];
    let d = DriftDetector::detect(&source, &target, &PostgresDialect);
    assert_eq!(d.action, DriftAction::DropAndRecreate);
    assert!(!d.changed_columns[0].is_safe);
    assert!(DriftDetector::generate_alter_sql("t", &d, &PostgresDialect).is_empty());
}

#[test]
fn drift_against_itself_is_ignored() {
    let cols = vec![col("id", "BIGINT"), col("Name", "varchar")];
    let d = DriftDetector::detect(&cols, &cols, &DefaultDialect);
    assert!(d.added_columns.is_empty());
    assert!(d.changed_columns.is_empty());
    assert!(d.dropped_columns.is_empty());
    assert_eq!(d.action, DriftAction::Ignore);
}

#[test]
fn drift_type_case_is_ignored() {
    let d = DriftDetector::detect(&vec![col("id", "bigint")], &vec![col("id", "BIGINT")], &DefaultDialect);
    assert_eq!(d.action, DriftAction::Ignore);
}

#[test]
fn column_map_insert_and_reconcile() {
    let mut m = ColumnMap::new();
    m.insert("amt".to_string(), "amount".to_string(), DataType::Int64);
    m.insert("nm".to_string(), "name".to_string(), DataType::Utf8);
    m.insert("nm".to_string(), "full_name".to_string(), DataType::LargeUtf8);
    let input = vec![
        Field { name: "amt".to_string(), data_type: DataType::Int32, nullable: true },
        Field { name: "nm".to_string(), data_type: DataType::Utf8, nullable: false },
        Field { name: "other".to_string(), data_type: DataType::Boolean, nullable: true },
    ];
    let out = m.reconcile(&input);
    assert_eq!(out.len(), 3);
    assert_eq!(out[0].name, "amount");
    assert_eq!(out[0].data_type, DataType::Int64);
    assert!(out[0].nullable);
    assert_eq!(out[1].name, "full_name");
    assert_eq!(out[1].data_type, DataType::LargeUtf8);
    assert!(!out[1].nullable);
    assert_eq!(out[2].name, "other");
    assert_eq!(out[2].data_type, DataType::Boolean);
}

#[test]
fn column_map_keeps_source_type_without_widening() {
    let mut m = ColumnMap::new();
    m.insert("x".to_string(), "x".to_string(), DataType::Int32);
    let out = m.reconcile(&vec![Field { name: "x".to_string(), data_type: DataType::Int64, nullable: true }]);
    assert_eq!(out[0].data_type, DataType::Int64);
}

#[test]
fn lineage_diff_reports_changes() {
    let a = result(vec![
        edge("orders", "id", "id", TransformKind::Direct),
        edge("orders", "amount", "total", TransformKind::Aggregation("SUM".to_string())),
        edge("orders", "status", "status", TransformKind::Direct),
    ]);
    let b = result(vec![
        edge("orders", "id", "id", TransformKind::Direct),
        edge("payments", "amount", "total", TransformKind::Aggregation("MAX".to_string())),
        edge("orders", "created_at", "created_at", TransformKind::Cast),
    ]);
    let d = LineageDiffer.diff(&a, &b);
    assert_eq!(d.len(), 4);
    match &d[0] {
        LineageDiff::ChangedSource { column, old, new } => {
            assert_eq!(column, "total");
            assert_eq!(old, "orders");
            assert_eq!(new, "payments");
        }
        other => panic!("unexpected {:?}", other),
    }
    match &d[1] {
        LineageDiff::ChangedTransform { column, .. } => assert_eq!(column, "total"),
        other => panic!("unexpected {:?}", other),
    }
    assert!(matches!(&d[2], LineageDiff::AddedColumn(c) if c == "created_at"));
    assert!(matches!(&d[3], LineageDiff::RemovedColumn(c) if c == "status"));
}

#[test]
fn lineage_diff_with_itself_is_empty() {
    let a = result(vec![
        edge("orders", "id", "id", TransformKind::Direct),
        edge("orders", "amount", "total", TransformKind::Aggregation("SUM".to_string())),
    ]);
    assert!(LineageDiffer.diff(&a, &a).is_empty());
}

#[test]
fn graph_diff_finds_edges() {
    let old = result(vec![
        edge("orders", "id", "id", TransformKind::Direct),
        edge("orders", "amount", "total", TransformKind::Direct),
    ]);
    let new = result(vec![
        edge("orders", "id", "id", TransformKind::Direct),
        edge("orders", "amount", "total", TransformKind::Cast),
        edge("orders", "email", "email", TransformKind::Direct),
    ]);
    let d = lineage_diff::LineageDiffer::diff(&old, &new);
    assert_eq!(d.added_edges.len(), 1);
    assert_eq!(d.added_edges[0].target_column, "email");
    assert!(d.removed_edges.is_empty());
    assert_eq!(d.transform_changes.len(), 1);
    assert_eq!(d.transform_changes[0].column, "total");
    assert!(d.transform_changes[0].new_transform.same_as(&TransformKind::Cast));
    let same = lineage_diff::LineageDiffer::diff(&new, &new);
    assert!(same.added_edges.is_empty() && same.removed_edges.is_empty() && same.transform_changes.is_empty());
}

#[test]
fn lineage_extraction_of_select() {
    let r = LineageExtractor::extract(
        "SELECT o.id, CAST(o.amount AS DOUBLE) AS amt, SUM(p.value) AS total, status FROM orders o JOIN payments p ON o.id = p.order_id",
    )
    .unwrap();
    assert_eq!(r.source_models, vec!["orders".to_string(), "payments".to_string()]);
    assert!(!r.has_star);
    assert_eq!(r.columns.len(), 4);
    assert_eq!(r.columns[0].source.model, "orders");
    assert_eq!(r.columns[0].source.column, "id");
    assert_eq!(r.columns[0].target_column, "id");
    assert!(r.columns[0].transform.same_as(&TransformKind::Direct));
    assert_eq!(r.columns[1].source.column, "amount");
    assert_eq!(r.columns[1].target_column, "amt");
    assert!(r.columns[1].transform.same_as(&TransformKind::Cast));
    assert_eq!(r.columns[2].source.model, "payments");
    assert_eq!(r.columns[2].target_column, "total");
    assert!(r.columns[2].transform.same_as(&TransformKind::Aggregation("SUM".to_string())));
    assert_eq!(r.columns[3].source.model, "unknown");
    assert_eq!(r.columns[3].target_column, "status");
}

#[test]
fn lineage_extraction_single_source_and_star() {
    let r = LineageExtractor::extract("SELECT *, id FROM users").unwrap();
    assert!(r.has_star);
    assert_eq!(r.columns.len(), 1);
    assert_eq!(r.columns[0].source.model, "users");
}

#[test]
fn lineage_extraction_subquery_alias() {
    let r = LineageExtractor::extract("SELECT s.id FROM (SELECT id FROM users) AS s").unwrap();
    assert!(r.source_models.is_empty());
    assert_eq!(r.columns[0].source.model, "(subquery)");
}

#[test]
fn lineage_extraction_errors() {
    assert!(matches!(LineageExtractor::extract("INSERT INTO t VALUES (1)"), Err(TitanError::SqlParseError(m)) if m == "Only SELECT statements are supported for lineage"));
    assert!(matches!(LineageExtractor::extract("SELECT 1 UNION SELECT 2"), Err(TitanError::SqlParseError(m)) if m == "Unsupported query type for lineage"));
    assert!(matches!(LineageExtractor::extract(""), Err(TitanError::SqlParseError(m)) if m == "Empty SQL"));
    assert!(matches!(LineageExtractor::extract("SELEC FROM"), Err(TitanError::SqlParseError(_))));
}

#[test]
fn ci_diff_compare() {
    let base = vec!["id".to_string(), "name".to_string(), "legacy".to_string()];
    let target = vec!["id".to_string(), "name".to_string(), "email".to_string()];
    let r = CIDiffer::compare("users", 10, 12, &base, &target);
    assert_eq!(r.model_name, "users");
    assert_eq!(r.status, ModelDiffStatus::Modified);
    assert_eq!(r.row_count_before, Some(10));
    assert_eq!(r.row_count_after, Some(12));
    assert_eq!(r.column_changes, vec!["+ email".to_string(), "- legacy".to_string()]);
    let same = CIDiffer::compare("users", 10, 10, &base, &base);
    assert_eq!(same.status, ModelDiffStatus::Unchanged);
    assert!(same.column_changes.is_empty());
    assert_eq!(CIDiffer::compare("users", 10, 11, &base, &base).status, ModelDiffStatus::Modified);
}

#[test]
fn ci_diff_queries() {
    assert_eq!(schema_query("dev_users"), "SELECT * FROM dev_users LIMIT 0");
    assert_eq!(row_count_query("dev_users"), "SELECT COUNT(*) FROM dev_users");
}

#[test]
fn audit_entry_for_success() {
    let e = AuditEntry::success(42, "dev", "orders", "abc", 7);
    assert_eq!(e.timestamp, 42);
    assert_eq!(e.env, "dev");
    assert_eq!(e.model, "orders");
    assert_eq!(e.hash, "abc");
    assert_eq!(e.status, "success");
    assert_eq!(e.rows_affected, 0);
    assert_eq!(e.duration_ms, 7);
    assert_eq!(AuditLogger::audit_dir(), "target/titan_audit");
}

#[test]
fn graph_diff_swapped_swaps_roles() {
    let a = result(vec![
        edge("orders", "id", "id", TransformKind::Direct),
        edge("orders", "amount", "total", TransformKind::Direct),
    ]);
    let b = result(vec![
        edge("orders", "amount", "total", TransformKind::Cast),
        edge("orders", "email", "email", TransformKind::Direct),
    ]);
    let ab = lineage_diff::LineageDiffer::diff(&a, &b);
    let ba = lineage_diff::LineageDiffer::diff(&b, &a);
    assert_eq!(ab.added_edges.len(), 1);
    assert_eq!(ba.removed_edges.len(), 1);
    assert_eq!(ab.added_edges[0].target_column, ba.removed_edges[0].target_column);
    assert_eq!(ab.removed_edges[0].target_column, ba.added_edges[0].target_column);
    assert_eq!(ab.transform_changes.len(), 1);
    assert_eq!(ba.transform_changes.len(), 1);
    assert!(ab.transform_changes[0].old_transform.same_as(&ba.transform_changes[0].new_transform));
    assert!(ab.transform_changes[0].new_transform.same_as(&ba.transform_changes[0].old_transform));
}
