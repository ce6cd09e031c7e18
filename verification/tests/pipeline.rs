use titan_engine::pipeline::{
    env_view_sql, impacted_exposures, model_version_table, promotion_sql, seed_view_sql, state_filter,
    test_suite_failure, view_as_sql,
};
use titan_engine::project::Exposure;
use titan_engine::materialize::statements::{swap_check_sql, swap_statement, table_statement, view_statement};
use titan_engine::connectors::driver_library;

fn strings(v: &[&str]) -> Vec<String> {
    v.iter().map(|s| s.to_string()).collect()
}

#[test]
fn environment_views() {
    assert_eq!(seed_view_sql("raw_users"), "CREATE OR REPLACE VIEW raw_users AS SELECT * FROM raw_users");
    assert_eq!(env_view_sql("dev_", "users", "users__h1"), "CREATE OR REPLACE VIEW dev_users AS SELECT * FROM users__h1");
    assert_eq!(model_version_table("users", "h1"), "users__h1");
    assert_eq!(view_as_sql("v", "SELECT 1"), "CREATE OR REPLACE VIEW v AS SELECT 1");
    assert_eq!(promotion_sql("prod_users", "dev/users"),
        "CREATE OR REPLACE VIEW prod_users AS SELECT * FROM read_parquet('dev/users')");
}

#[test]
fn state_selection_keeps_order() {
    let selected = strings(&["a", "b", "c", "d"]);
    let by_state = strings(&["d", "b"]);
    assert_eq!(state_filter(&selected, &by_state), strings(&["b", "d"]));
    assert!(state_filter(&selected, &vec![]).is_empty());
}

#[test]
fn downstream_impact() {
    let exposures = vec![
        Exposure { name: "Revenue".to_string(), exposure_type: "dashboard".to_string(), owner: "ana".to_string(),
            depends_on: strings(&["orders", "users"]) },
        Exposure { name: "Churn".to_string(), exposure_type: "ml".to_string(), owner: "bo".to_string(),
            depends_on: strings(&["users"]) },
    ];
    assert_eq!(impacted_exposures(&exposures, "orders"), strings(&["Revenue (dashboard) - Owner: ana"]));
    assert_eq!(impacted_exposures(&exposures, "users").len(), 2);
    assert!(impacted_exposures(&exposures, "events").is_empty());
}

#[test]
fn test_suite_verdict() {
    assert!(test_suite_failure(0).is_none());
    assert_eq!(test_suite_failure(3).unwrap(), "3 tests failed");
}

#[test]
fn materialization_statements() {
    assert_eq!(table_statement("orders", "h1", "SELECT 1"), "CREATE OR REPLACE TABLE orders__h1 AS SELECT 1");
    assert_eq!(view_statement("orders", "h1", "SELECT 1"), "CREATE OR REPLACE VIEW orders__h1 AS SELECT 1");
    assert_eq!(swap_statement("dev", "orders", "h1"), "CREATE OR REPLACE VIEW dev_orders AS SELECT * FROM orders__h1");
    assert_eq!(swap_check_sql("dev_orders", "orders__h1"),
        "SELECT table_name FROM information_schema.views WHERE table_name = 'dev_orders' AND view_definition LIKE '%orders__h1%'");
}

#[test]
fn driver_libraries() {
    assert_eq!(driver_library("postgres"), Some("libadbc_driver_postgres.so"));
    assert_eq!(driver_library("snowflake"), Some("libadbc_driver_snowflake.so"));
    assert_eq!(driver_library("mysql"), None);
}
