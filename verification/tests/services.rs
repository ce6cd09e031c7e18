use std::path::PathBuf;
use titan_engine::bridge::{RockyBridge, SdfBridge};
use titan_engine::connectors::{ConnectorRegistry, ObjectStorePlan, SourceRoute, AdbcConnector, ObjectStoreConnector};
use titan_engine::project::SourceConfig;
use titan_engine::api::{DataForgeApi, DataForgeRpc};
use titan_engine::db::WarehouseConfig;
use titan_engine::packages::Package;
use titan_engine::cost::WarehouseType;
use titan_engine::orchestrator::{Orchestrator, OrchestratorConfig, PipelineStep};
use titan_engine::artifacts::{materialization_label, Manifest, ModelEntry, RunResult};
use titan_engine::materialize::Materialization;
use titan_engine::hooks::{HookStage, Hooks};
use titan_engine::error::TitanError;

fn source(t: &str, bucket: Option<&str>) -> SourceConfig {
    SourceConfig {
        source_type: t.to_string(),
        bucket: bucket.map(|b| b.to_string()),
        region: Some("eu-west-1".to_string()),
        endpoint: None,
        driver: None,
        connection_string: None,
    }
}

#[test]
fn bridges() {
    let rocky = RockyBridge::new(PathBuf::from("/tmp/p"));
    assert_eq!(rocky.plan_deployment("dev"), vec!["CREATE OR REPLACE VIEW dev_orders AS SELECT * FROM prod_orders".to_string()]);
    let sdf = SdfBridge::new(PathBuf::from("/tmp/p"));
    assert_eq!(sdf.root, PathBuf::from("/tmp/p"));
    assert_eq!(sdf.get_column_lineage("orders"), vec!["parent_table.id".to_string(), "parent_table.created_at".to_string()]);
}

#[test]
fn source_routing() {
    let r = ConnectorRegistry::new();
    for t in ["s3", "gcs", "azure", "local"] {
        assert_eq!(r.route(t).unwrap(), SourceRoute::ObjectStore);
    }
    for t in ["adbc", "postgres", "snowflake", "bigquery"] {
        assert_eq!(r.route(t).unwrap(), SourceRoute::Adbc);
    }
    match r.route("ftp") {
        Err(TitanError::ValidationError(m)) => assert_eq!(m, "Unsupported source type: ftp"),
        other => panic!("unexpected {:?}", other),
    }
}

#[test]
fn object_store_plans() {
    let c = ObjectStoreConnector::new();
    match c.plan_store(&source("s3", Some("lake"))).unwrap() {
        ObjectStorePlan::S3 { bucket, region, endpoint } => {
            assert_eq!(bucket, "lake");
            assert_eq!(region.as_deref(), Some("eu-west-1"));
            assert!(endpoint.is_none());
        }
        other => panic!("unexpected {:?}", other),
    }
    assert!(matches!(c.plan_store(&source("gcs", Some("g"))), Ok(ObjectStorePlan::Gcs { bucket }) if bucket == "g"));
    assert!(matches!(c.plan_store(&source("azure", Some("box"))), Ok(ObjectStorePlan::Azure { container }) if container == "box"));
    assert!(matches!(c.plan_store(&source("local", None)), Ok(ObjectStorePlan::Local)));
    assert!(matches!(c.plan_store(&source("s3", None)), Err(TitanError::ValidationError(m)) if m == "Bucket required for S3"));
    assert!(matches!(c.plan_store(&source("gcs", None)), Err(TitanError::ValidationError(m)) if m == "Bucket required for GCS"));
    assert!(matches!(c.plan_store(&source("azure", None)), Err(TitanError::ValidationError(m)) if m == "Container required for Azure"));
    assert!(matches!(c.plan_store(&source("hdfs", None)), Err(TitanError::ValidationError(m)) if m == "Unsupported object store type: hdfs"));
}

#[test]
fn adbc_config_checks() {
    let a = AdbcConnector::new();
    let mut cfg = source("adbc", None);
    assert!(matches!(a.check_config(&cfg), Err(TitanError::ValidationError(m)) if m == "ADBC driver path required"));
    cfg.driver = Some("/usr/lib/libadbc.so".to_string());
    assert!(matches!(a.check_config(&cfg), Err(TitanError::ValidationError(m)) if m == "Connection string required"));
    cfg.connection_string = Some("postgresql://h/db".to_string());
    assert!(a.check_config(&cfg).is_ok());
}

#[test]
fn rpc_answers() {
    let api = DataForgeApi;
    assert_eq!(api.get_column_suggestions("orders".to_string()).unwrap().columns,
        vec!["id".to_string(), "created_at".to_string(), "status".to_string()]);
    assert_eq!(api.get_lineage_graph().unwrap().edges, vec![("stg_orders".to_string(), "fct_orders".to_string())]);
    assert_eq!(api.trigger_plan("prod".to_string()).unwrap(), "Plan triggered for environment: prod");
}

#[test]
fn warehouse_config_builder() {
    let c = WarehouseConfig::builder().url("postgres://db").build().unwrap();
    assert_eq!(c.connection_url, "postgres://db");
    assert_eq!(c.pool_size, 10);
    assert_eq!(c.timeout_seconds, 30);
    let c = WarehouseConfig::builder().pool_size(3).url("u").build().unwrap();
    assert_eq!(c.pool_size, 3);
    assert!(matches!(WarehouseConfig::builder().pool_size(3).build(), Err(TitanError::ValidationError(m)) if m == "URL required"));
}

#[test]
fn package_git_commands() {
    let p = Package { git: "https://g/x.git".to_string(), name: "x".to_string(), revision: Some("v1".to_string()) };
    let s = |v: &[&str]| v.iter().map(|x| x.to_string()).collect::<Vec<_>>();
    assert_eq!(p.install_commands(".titan_packages/x", false), vec![
        s(&["clone", "https://g/x.git", ".titan_packages/x"]),
        s(&["-C", ".titan_packages/x", "checkout", "v1"]),
    ]);
    let q = Package { git: "g".to_string(), name: "y".to_string(), revision: None };
    assert_eq!(q.install_commands("p", true), vec![s(&["-C", "p", "pull"])]);
}

#[test]
fn warehouse_names() {
    assert_eq!(WarehouseType::from_name("Snowflake"), WarehouseType::Snowflake);
    assert_eq!(WarehouseType::from_name("DATABRICKS"), WarehouseType::Databricks);
    assert_eq!(WarehouseType::from_name("bigquery"), WarehouseType::BigQuery);
    assert_eq!(WarehouseType::from_name("duckdb"), WarehouseType::DuckDb);
    assert_eq!(WarehouseType::from_name("anything"), WarehouseType::DuckDb);
}

#[test]
fn orchestrator_steps() {
    let o = Orchestrator::new(OrchestratorConfig { watch_mode: true, preview_enabled: true }, PathBuf::from("/p"));
    assert_eq!(o.change_steps(), vec![PipelineStep::ExpandMacros, PipelineStep::ValidateLogic, PipelineStep::PlanExecution, PipelineStep::Preview]);
    assert_eq!(o.sdf.root, PathBuf::from("/p"));
    assert_eq!(o.rocky.project_root, PathBuf::from("/p"));
    let o2 = Orchestrator::new(OrchestratorConfig { watch_mode: false, preview_enabled: false }, PathBuf::from("/p"));
    assert_eq!(o2.change_steps().len(), 3);
    assert!(Orchestrator::triggers(Some("sql")));
    assert!(Orchestrator::triggers(Some("star")));
    assert!(!Orchestrator::triggers(Some("py")));
    assert!(!Orchestrator::triggers(None));
}

#[test]
fn run_artifacts() {
    let r = RunResult::success("orders", 12);
    assert_eq!(r.name, "orders");
    assert_eq!(r.status, "success");
    assert_eq!(r.duration_ms, 12);
    assert!(r.rows_affected.is_none());
    let models = vec![
        ModelEntry { name: "a".to_string(), raw_sql: "SELECT 1".to_string(), parent_names: vec![], materialization: Materialization::View },
        ModelEntry { name: "b".to_string(), raw_sql: "SELECT 2".to_string(), parent_names: vec!["a".to_string()], materialization: Materialization::Incremental },
        ModelEntry { name: "a".to_string(), raw_sql: "SELECT 3".to_string(), parent_names: vec![], materialization: Materialization::Table },
    ];
    let m = Manifest::generate("proj".to_string(), &models, 77);
    assert_eq!(m.metadata.project_name, "proj");
    assert_eq!(m.metadata.generated_at, 77);
    assert_eq!(m.nodes.len(), 2);
    assert_eq!(m.nodes[0].name, "a");
    assert_eq!(m.nodes[0].raw_sql, "SELECT 3");
    assert_eq!(m.nodes[0].materialization, "Table");
    assert_eq!(m.nodes[1].dependencies, vec!["a".to_string()]);
    assert_eq!(m.nodes[1].materialization, "Incremental");
    assert_eq!(materialization_label(Materialization::Snapshot), "Snapshot");
}

#[test]
fn hook_statements() {
    let h = Hooks { on_run_start: vec!["SET x = 1".to_string()], on_run_end: vec![] };
    assert_eq!(h.statements(HookStage::Start), &vec!["SET x = 1".to_string()]);
    assert!(h.statements(HookStage::End).is_empty());
    let d = Hooks::default();
    assert!(d.on_run_start.is_empty() && d.on_run_end.is_empty());
}
