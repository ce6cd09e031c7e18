use titan_engine::filler::dag::{DagDecision, DagScheduler, TaskNode, TaskStatus};
use titan_engine::filler::grace_period::{GracePeriodManager, GracePeriodRecord, UtcTime, MAX_UTC_SECS, MIN_UTC_SECS};
use titan_engine::filler::task::{
    apply_masking, is_incremental_run, materialization_target, quarantine_source_view, registration_for,
    resolve_parents, run_table_name, stable_table_name, success_metadata, validate_contract, ParentLookup,
    SchemaField, TableRegistration,
};
use titan_engine::circuit_breaker::{CircuitBreaker, State};
use titan_engine::fingerprint::hash::LogicHash;
use titan_engine::materialize::Materialization;
use titan_engine::project::ModelColumn;
use titan_engine::titan_core::masking::MaskStrategy;
use titan_engine::error::TitanError;
use chrono::{DateTime, Utc};

fn task(name: &str, parents: &[&str]) -> TaskNode {
    TaskNode { name: name.to_string(), parent_names: parents.iter().map(|p| p.to_string()).collect() }
}

#[test]
fn dag_runs_parents_before_children() {
    let tasks = vec![task("dim", &["stg"]), task("stg", &["raw_seed"]), task("fct", &["dim", "stg"])];
    let mut s = DagScheduler::new(&tasks);
    assert_eq!(s.num_tasks(), 3);
    assert_eq!(s.take_ready(), vec!["stg".to_string()]);
    assert_eq!(s.decision(), DagDecision::Wait);
    assert!(s.take_ready().is_empty());
    assert!(s.mark_completed("stg"));
    assert_eq!(s.take_ready(), vec!["dim".to_string()]);
    assert!(s.mark_completed("dim"));
    assert_eq!(s.take_ready(), vec!["fct".to_string()]);
    assert!(s.mark_completed("fct"));
    assert_eq!(s.decision(), DagDecision::Finished);
    assert!(!s.mark_completed("unknown"));
}

#[test]
fn dag_independent_models_start_together() {
    let tasks = vec![task("a", &[]), task("b", &["src"]), task("c", &["a"])];
    let mut s = DagScheduler::new(&tasks);
    assert_eq!(s.take_ready(), vec!["a".to_string(), "b".to_string()]);
    assert_eq!(s.status_of(0), TaskStatus::Running);
    assert_eq!(s.status_of(2), TaskStatus::Pending);
}

#[test]
fn dag_cycle_stalls() {
    let tasks = vec![task("a", &["b"]), task("b", &["a"]), task("c", &[])];
    let mut s = DagScheduler::new(&tasks);
    assert_eq!(s.take_ready(), vec!["c".to_string()]);
    assert!(s.mark_completed("c"));
    assert!(s.take_ready().is_empty());
    assert_eq!(s.decision(), DagDecision::Stalled);
    match DagScheduler::stall_error() {
        TitanError::CircularDependency(m) => assert_eq!(m, "Unresolved dependencies remained"),
        other => panic!("unexpected {:?}", other),
    }
}

#[test]
fn dag_duplicate_name_uses_last_task() {
    let tasks = vec![task("a", &["b"]), task("b", &[]), task("a", &[])];
    let mut s = DagScheduler::new(&tasks);
    assert_eq!(s.num_tasks(), 2);
    assert_eq!(s.name_of(0), "a");
    assert_eq!(s.take_ready(), vec!["a".to_string(), "b".to_string()]);
}

fn record(col: &str, expires: i64) -> GracePeriodRecord {
    GracePeriodRecord {
        model_name: "users".to_string(),
        column_name: col.to_string(),
        data_type: "TEXT".to_string(),
        first_seen_dropped_at: UtcTime { secs: 0, nanos: 0 },
        expires_at: UtcTime { secs: expires, nanos: 0 },
    }
}

#[test]
fn grace_period_classifies_drops() {
    let now = UtcTime { secs: 1_000, nanos: 5 };
    let dropped = vec!["Email".to_string(), "phone".to_string(), "fax".to_string()];
    let existing = vec![record("email", 2_000), record("PHONE", 1_000), record("address", 5_000)];
    let r = GracePeriodManager::compute_drops("users", &dropped, &existing, 7, now);
    assert_eq!(r.still_in_grace.len(), 1);
    assert_eq!(r.still_in_grace[0].column_name, "email");
    assert_eq!(r.expired, vec!["phone".to_string()]);
    assert_eq!(r.new_records.len(), 1);
    let n = &r.new_records[0];
    assert_eq!(n.model_name, "users");
    assert_eq!(n.column_name, "fax");
    assert_eq!(n.data_type, "UNKNOWN");
    assert_eq!(n.first_seen_dropped_at, now);
    assert_eq!(n.expires_at, UtcTime { secs: 1_000 + 7 * 86_400, nanos: 5 });
    assert_eq!(r.reappeared, vec!["address".to_string()]);
    assert_eq!(r.new_records.len() + r.still_in_grace.len() + r.expired.len(), dropped.len());
    let keep = r.records_to_keep();
    assert_eq!(keep.len(), 2);
    assert_eq!(keep[0].column_name, "email");
    assert_eq!(keep[1].column_name, "fax");
}

#[test]
fn grace_period_last_record_wins() {
    let now = UtcTime { secs: 100, nanos: 0 };
    let existing = vec![record("c", 50), record("C", 500)];
    let r = GracePeriodManager::compute_drops("m", &vec!["c".to_string()], &existing, 1, now);
    assert_eq!(r.still_in_grace.len(), 1);
    assert_eq!(r.still_in_grace[0].column_name, "C");
    assert!(r.expired.is_empty());
}

#[test]
fn grace_period_checked_refuses_unrepresentable_end() {
    let now = UtcTime { secs: MAX_UTC_SECS - 10, nanos: 0 };
    let existing = vec![record("email", MAX_UTC_SECS)];
    assert!(GracePeriodManager::compute_drops_checked("users", &vec!["fax".to_string()], &existing, 1, now).is_none());
    let known = GracePeriodManager::compute_drops_checked("users", &vec!["EMAIL".to_string()], &existing, 1, now)
        .expect("no new grace period starts");
    assert_eq!(known.still_in_grace.len(), 1);
    assert!(known.new_records.is_empty());
    let early = UtcTime { secs: 1_000, nanos: 0 };
    let fresh = GracePeriodManager::compute_drops_checked("users", &vec!["fax".to_string()], &existing, 2, early)
        .expect("end is representable");
    assert_eq!(fresh.new_records[0].expires_at, UtcTime { secs: 1_000 + 2 * 86_400, nanos: 0 });
}

#[test]
fn grace_period_range_matches_chrono() {
    assert_eq!(DateTime::<Utc>::MAX_UTC.timestamp(), MAX_UTC_SECS);
    assert_eq!(DateTime::<Utc>::MIN_UTC.timestamp(), MIN_UTC_SECS);
}

#[test]
fn parents_resolve_in_order() {
    let parents = vec!["stg".to_string(), "raw".to_string(), "other".to_string()];
    let lookups = vec![
        ParentLookup::Found(LogicHash::new("h1".to_string())),
        ParentLookup::Missing { table_exists: true },
        ParentLookup::Missing { table_exists: false },
    ];
    let r = resolve_parents(&parents, "dev", &lookups, true).unwrap();
    assert_eq!(r.iter().map(|h| h.as_str().to_string()).collect::<Vec<_>>(),
        vec!["h1".to_string(), "planned_parent".to_string(), "planned_parent".to_string()]);
    match resolve_parents(&parents, "dev", &lookups, false) {
        Err(TitanError::DependencyNotFound(n, e)) => {
            assert_eq!(n, "other");
            assert_eq!(e, "dev");
        }
        other => panic!("unexpected {:?}", other.map(|v| v.len())),
    }
    let ok = resolve_parents(&parents[..2].to_vec(), "dev", &lookups[..2].iter().map(|l| match l {
        ParentLookup::Found(h) => ParentLookup::Found(h.clone()),
        ParentLookup::Missing { table_exists } => ParentLookup::Missing { table_exists: *table_exists },
        ParentLookup::Failed(m) => ParentLookup::Failed(m.clone()),
    }).collect(), false).unwrap();
    assert_eq!(ok[1].as_str(), "source_raw");
}

#[test]
fn parent_lookup_failure_is_state_error() {
    let r = resolve_parents(&vec!["a".to_string()], "dev", &vec![ParentLookup::Failed("disk".to_string())], false);
    assert!(matches!(r, Err(TitanError::StateError(m)) if m == "disk"));
}

#[test]
fn incremental_run_needs_prior_metadata() {
    assert!(is_incremental_run(Materialization::Incremental, true));
    assert!(!is_incremental_run(Materialization::Incremental, false));
    assert!(!is_incremental_run(Materialization::Table, true));
}

fn column(name: &str, ty: Option<&str>, masking: Option<MaskStrategy>) -> ModelColumn {
    ModelColumn { name: name.to_string(), data_type: ty.map(|t| t.to_string()), masking }
}

fn field(name: &str, ty: &str) -> SchemaField {
    SchemaField { name: name.to_string(), type_text: ty.to_string() }
}

#[test]
fn contract_validation() {
    let cols = vec![column("id", Some("Int64"), None), column("name", None, None)];
    let schema = vec![field("id", "Int64"), field("name", "Utf8")];
    assert!(validate_contract(true, "users", &cols, &schema).is_ok());
    assert!(validate_contract(false, "users", &cols, &vec![]).is_ok());
    match validate_contract(true, "users", &cols, &vec![field("id", "Int64")]) {
        Err(TitanError::ValidationError(m)) => assert_eq!(m, "Contract violation: model users is missing column name"),
        other => panic!("unexpected {:?}", other),
    }
    match validate_contract(true, "users", &cols, &vec![field("id", "Utf8"), field("name", "Utf8")]) {
        Err(TitanError::ValidationError(m)) =>
            assert_eq!(m, "Contract violation: model users column id has type utf8, expected Int64"),
        other => panic!("unexpected {:?}", other),
    }
}

#[test]
fn masking_wraps_sql() {
    let cols = vec![column("id", None, None), column("email", None, Some(MaskStrategy::Redact))];
    assert_eq!(apply_masking(&cols, "SELECT * FROM t").unwrap(),
        "SELECT id, '***' AS email FROM (SELECT * FROM t)");
    assert!(apply_masking(&vec![column("id", None, None)], "SELECT 1").is_none());
}

#[test]
fn table_registration_paths() {
    assert!(matches!(registration_for("delta", Materialization::Incremental, "dev", "m"),
        TableRegistration::Delta(p) if p == "tables/dev/m"));
    assert!(matches!(registration_for("delta", Materialization::Table, "dev", "m"),
        TableRegistration::Delta(p) if p == "snapshots/dev/m"));
    assert!(matches!(registration_for("parquet", Materialization::Table, "dev", "m"),
        TableRegistration::Parquet(p) if p == "tables/dev/m.parquet"));
    assert!(matches!(registration_for("csv", Materialization::View, "dev", "m"),
        TableRegistration::Csv(p) if p == "tables/dev/m.csv"));
    assert!(matches!(registration_for("duckdb", Materialization::View, "dev", "m"), TableRegistration::InMemory));
}

#[test]
fn task_names_and_metadata() {
    assert_eq!(run_table_name("dev", "orders", "42"), "dev_orders_42");
    assert_eq!(stable_table_name("dev", "orders"), "dev_orders");
    assert_eq!(quarantine_source_view("orders", "42"), "q_source_orders_42");
    let name = "orders".to_string();
    assert_eq!(materialization_target(&Some("orders_shadow".to_string()), &name), "orders_shadow");
    assert_eq!(materialization_target(&None, &name), "orders");
    let m = success_metadata("dev", "orders", 99);
    assert_eq!(m.status, "success");
    assert_eq!(m.materialization_path, "dev/orders");
    assert_eq!(m.created_at, 99);
}

#[test]
fn breaker_opens_at_threshold_and_recovers() {
    let mut b = CircuitBreaker::with_timeout_ms(2, 1_000);
    assert!(b.check_at(0).is_ok());
    b.record_failure_at(10);
    assert!(b.check_at(20).is_ok());
    b.record_failure_at(30);
    match b.check_at(500) {
        Err(e) => {
            assert_eq!(e.consecutive_failures, 2);
            assert_eq!(e.last_error, "Warehouse unavailable");
        }
        Ok(()) => panic!("breaker should be open"),
    }
    assert!(b.check_at(1_030).is_ok());
    assert!(b.check_at(1_031).is_ok());
    b.record_success();
    b.record_failure_at(2_000);
    assert!(b.check_at(2_001).is_ok());
}

#[test]
fn breaker_with_clock() {
    let mut b = CircuitBreaker::new(1, std::time::Duration::from_secs(60));
    assert!(b.check().is_ok());
    b.record_failure();
    assert!(b.check().is_err());
    b.record_success();
    assert!(b.check().is_ok());
    let _ = State::HalfOpen;
}

#[test]
fn breaker_with_zero_timeout_half_opens_at_once() {
    let mut b = CircuitBreaker::new(1, std::time::Duration::from_millis(0));
    b.record_failure();
    assert!(b.check().is_ok());
    let mut c = CircuitBreaker::with_timeout_ms(3, 10);
    c.record_failure_at(0);
    c.record_failure_at(0);
    assert!(c.check_at(1).is_ok());
    c.record_failure_at(5);
    assert!(c.check_at(14).is_err());
    assert!(c.check_at(15).is_ok());
}

#[test]
fn dag_long_chain_finishes() {
    let mut tasks: Vec<TaskNode> = vec![task("model_0", &[])];
    for i in 1..200 {
        let parent = format!("model_{}", i - 1);
        tasks.push(task(&format!("model_{i}"), &[parent.as_str()]));
    }
    let mut s = DagScheduler::new(&tasks);
    for i in 0..200 {
        assert_eq!(s.take_ready(), vec![format!("model_{i}")]);
        assert!(s.mark_completed(&format!("model_{i}")));
    }
    assert_eq!(s.decision(), DagDecision::Finished);
}

#[test]
fn dag_cycle_stalls_run() {
    let tasks = vec![task("a", &["b"]), task("b", &["a"]), task("c", &[])];
    let mut s = DagScheduler::new(&tasks);
    assert_eq!(s.take_ready(), vec!["c".to_string()]);
    assert_eq!(s.decision(), DagDecision::Wait);
    assert!(s.mark_completed("c"));
    assert!(s.take_ready().is_empty());
    assert_eq!(s.decision(), DagDecision::Stalled);
}

#[test]
fn breaker_reopens_after_threshold_failures_following_success() {
    let mut b = CircuitBreaker::with_timeout_ms(3, 100);
    b.record_failure_at(0);
    b.record_failure_at(0);
    b.record_failure_at(0);
    assert!(b.check_at(1).is_err());
    b.record_success();
    assert!(b.check_at(2).is_ok());
    b.record_failure_at(5);
    b.record_failure_at(6);
    assert!(b.check_at(7).is_ok());
    b.record_failure_at(8);
    assert!(b.check_at(9).is_err());
}
